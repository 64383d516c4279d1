//! The reminder store and its state machine: create, update, snooze,
//! dismiss, list, the due query the poller runs on, and the "mark sent"
//! transition that re-arms recurring reminders. Timestamps are seconds
//! since the Unix epoch; callers supply the current time.

use vstd::multiset::Multiset;
use vstd::prelude::*;

use crate::database::{db_same_except_reminders, db_wf, Database};
use crate::interop::{fresh_uuid, parse_rfc3339_epoch, spec_rfc3339_epoch, utc_now_epoch};
use crate::recurrence::{
    next_fire_at, parse_rule, spec_parse_rule, RecurrenceRule, FIRE_BOUND,
    TS_BOUND,
};
use crate::services::ServiceDescriptor;
use crate::strutil::view_opt_str;

verus! {

/// A reminder as stored and as shown to callers.
#[derive(Debug)]
pub struct ReminderDto {
    pub id: String,
    pub user_id: String,
    pub title: String,
    pub description: Option<String>,
    pub account_id: Option<String>,
    pub account_name: Option<String>,
    pub amount_cents: Option<i64>,
    pub due_at: i64,
    pub recurrence_rule: Option<RecurrenceRule>,
    pub next_fire_at: Option<i64>,
    pub channel: ReminderChannel,
    pub snooze_minutes: Option<i32>,
    pub last_triggered_at: Option<i64>,
    pub status: ReminderStatus,
    pub created_at: i64,
}

/// The mathematical content of a reminder: its texts as character
/// sequences, everything else as plain values.
pub struct ReminderView {
    pub id: Seq<char>,
    pub user_id: Seq<char>,
    pub title: Seq<char>,
    pub description: Option<Seq<char>>,
    pub account_id: Option<Seq<char>>,
    pub account_name: Option<Seq<char>>,
    pub amount_cents: Option<i64>,
    pub due_at: i64,
    pub recurrence_rule: Option<RecurrenceRule>,
    pub next_fire_at: Option<i64>,
    pub channel: ReminderChannel,
    pub snooze_minutes: Option<i32>,
    pub last_triggered_at: Option<i64>,
    pub status: ReminderStatus,
    pub created_at: i64,
}

impl View for ReminderDto {
    type V = ReminderView;

    open spec fn view(&self) -> ReminderView {
        ReminderView {
            id: self.id@,
            user_id: self.user_id@,
            title: self.title@,
            description: view_opt_str(self.description),
            account_id: view_opt_str(self.account_id),
            account_name: view_opt_str(self.account_name),
            amount_cents: self.amount_cents,
            due_at: self.due_at,
            recurrence_rule: self.recurrence_rule,
            next_fire_at: self.next_fire_at,
            channel: self.channel,
            snooze_minutes: self.snooze_minutes,
            last_triggered_at: self.last_triggered_at,
            status: self.status,
            created_at: self.created_at,
        }
    }
}

impl Clone for ReminderDto {
    fn clone(&self) -> (r: Self)
        ensures
            r@ == self@,
    {
        ReminderDto {
            id: self.id.clone(),
            user_id: self.user_id.clone(),
            title: self.title.clone(),
            description: crate::strutil::clone_opt_string(&self.description),
            account_id: crate::strutil::clone_opt_string(&self.account_id),
            account_name: crate::strutil::clone_opt_string(&self.account_name),
            amount_cents: self.amount_cents,
            due_at: self.due_at,
            recurrence_rule: self.recurrence_rule,
            next_fire_at: self.next_fire_at,
            channel: self.channel,
            snooze_minutes: self.snooze_minutes,
            last_triggered_at: self.last_triggered_at,
            status: self.status,
            created_at: self.created_at,
        }
    }
}

/// How a reminder reaches the user.
#[derive(Debug, Clone, Copy, PartialEq, Eq, Structural)]
pub enum ReminderChannel {
    Toast,
    InApp,
    Email,
}

impl ReminderChannel {
    /// The canonical encoding used in storage.
    pub open spec fn spec_as_str(self) -> Seq<char> {
        match self {
            ReminderChannel::Toast => "toast"@,
            ReminderChannel::InApp => "in_app"@,
            ReminderChannel::Email => "email"@,
        }
    }

    pub fn as_str(&self) -> (r: &'static str)
        ensures
            r@ == self.spec_as_str(),
    {
        match self {
            ReminderChannel::Toast => "toast",
            ReminderChannel::InApp => "in_app",
            ReminderChannel::Email => "email",
        }
    }
}

/// Lifecycle state of a reminder.
#[derive(Debug, Clone, Copy, PartialEq, Eq, Structural)]
pub enum ReminderStatus {
    Scheduled,
    Sent,
    Snoozed,
    Dismissed,
}

impl ReminderStatus {
    /// The canonical encoding used in storage.
    pub open spec fn spec_as_str(self) -> Seq<char> {
        match self {
            ReminderStatus::Scheduled => "scheduled"@,
            ReminderStatus::Sent => "sent"@,
            ReminderStatus::Snoozed => "snoozed"@,
            ReminderStatus::Dismissed => "dismissed"@,
        }
    }

    pub fn as_str(&self) -> (r: &'static str)
        ensures
            r@ == self.spec_as_str(),
    {
        match self {
            ReminderStatus::Scheduled => "scheduled",
            ReminderStatus::Sent => "sent",
            ReminderStatus::Snoozed => "snoozed",
            ReminderStatus::Dismissed => "dismissed",
        }
    }
}

/// One audit-trail entry of a reminder's lifecycle; append-only.
#[derive(Debug, Clone)]
pub struct ReminderLogDto {
    pub id: String,
    pub reminder_id: String,
    pub action: String,
    pub metadata: Option<String>,
    pub created_at: i64,
}

/// The mathematical content of an audit-trail entry.
pub struct ReminderLogView {
    pub id: Seq<char>,
    pub reminder_id: Seq<char>,
    pub action: Seq<char>,
    pub metadata: Option<Seq<char>>,
    pub created_at: i64,
}

impl View for ReminderLogDto {
    type V = ReminderLogView;

    open spec fn view(&self) -> ReminderLogView {
        ReminderLogView {
            id: self.id@,
            reminder_id: self.reminder_id@,
            action: self.action@,
            metadata: view_opt_str(self.metadata),
            created_at: self.created_at,
        }
    }
}

/// Input for creating a reminder. `due_at` is an RFC 3339 timestamp
/// text; `recurrence_rule` is a rule string (`DAILY`, `FREQ=WEEKLY`, ...).
#[derive(Debug, Clone)]
pub struct CreateReminderInput {
    pub title: String,
    pub description: Option<String>,
    pub account_id: Option<String>,
    pub amount_cents: Option<i64>,
    pub due_at: String,
    pub recurrence_rule: Option<String>,
    pub channel: Option<ReminderChannel>,
    pub snooze_minutes: Option<i32>,
}

/// Input for updating a reminder; absent fields keep their stored value.
#[derive(Debug, Clone)]
pub struct UpdateReminderInput {
    pub id: String,
    pub title: Option<String>,
    pub description: Option<String>,
    pub account_id: Option<String>,
    pub amount_cents: Option<i64>,
    pub due_at: Option<String>,
    pub recurrence_rule: Option<String>,
    pub channel: Option<ReminderChannel>,
    pub snooze_minutes: Option<i32>,
    pub status: Option<ReminderStatus>,
}

/// Input for pushing a reminder's next fire time out by some minutes.
#[derive(Debug, Clone)]
pub struct SnoozeReminderInput {
    pub id: String,
    pub snooze_minutes: i32,
}

/// Input for dismissing a reminder.
#[derive(Debug, Clone)]
pub struct DismissReminderInput {
    pub id: String,
}

/// Errors of the reminder service.
#[derive(Debug)]
pub enum ReminderServiceError {
    Database(String),
    NotFound(String),
    Validation(String),
    Internal(String),
}

pub type ReminderResult<T> = Result<T, ReminderServiceError>;

/// A well-formed stored reminder: timestamps in range, and a scheduled or
/// snoozed recurring reminder always has a next fire time. (A
/// non-recurring reminder whose due time has passed may legitimately
/// have none: it is terminal.)
pub open spec fn reminder_wf(r: ReminderView) -> bool {
    &&& -FIRE_BOUND <= r.due_at <= FIRE_BOUND
    &&& r.next_fire_at matches Some(t) ==> -FIRE_BOUND <= t <= FIRE_BOUND
    &&& ((r.status is Scheduled || r.status is Snoozed) && r.recurrence_rule is Some)
        ==> r.next_fire_at is Some
}

/// Whether the reminder belongs to `user` and carries `id`.
pub open spec fn reminder_matches(r: ReminderView, user: Seq<char>, id: Seq<char>) -> bool {
    r.id == id && r.user_id == user
}

/// The first stored reminder of `user` carrying `id`, if any.
pub open spec fn spec_find_reminder(
    rs: Seq<ReminderView>,
    user: Seq<char>,
    id: Seq<char>,
) -> Option<ReminderView>
    decreases rs.len(),
{
    if rs.len() == 0 {
        None
    } else if reminder_matches(rs[0], user, id) {
        Some(rs[0])
    } else {
        spec_find_reminder(rs.subrange(1, rs.len() as int), user, id)
    }
}

/// The rule an optional rule string denotes.
pub open spec fn spec_parse_rule_opt(s: Option<String>) -> Option<RecurrenceRule> {
    match s {
        None => None,
        Some(text) => spec_parse_rule(text@),
    }
}

/// One audit-trail entry was appended: the trail up to it is untouched,
/// and the entry records the given action at the given time. (The
/// entry's own identifier is freshly drawn and not specified.)
pub open spec fn log_appended(
    pre: Seq<ReminderLogView>,
    post: Seq<ReminderLogView>,
    reminder_id: Seq<char>,
    action: Seq<char>,
    metadata: Option<Seq<char>>,
    now: i64,
) -> bool {
    &&& post.len() == pre.len() + 1
    &&& post.subrange(0, pre.len() as int) == pre
    &&& post.last().reminder_id == reminder_id
    &&& post.last().action == action
    &&& post.last().metadata == metadata
    &&& post.last().created_at == now
}

/// Whether the inputs of a create call are acceptable: the due text
/// parses to a timestamp in range, and the reminder either is still in
/// the future or recurs.
pub open spec fn spec_create_ok(input: CreateReminderInput, now: i64) -> bool {
    &&& spec_rfc3339_epoch(input.due_at@) is Some
    &&& -TS_BOUND <= spec_rfc3339_epoch(input.due_at@)->Some_0 <= TS_BOUND
    &&& (spec_rfc3339_epoch(input.due_at@)->Some_0 > now || spec_parse_rule_opt(
        input.recurrence_rule,
    ) is Some)
}

/// The reminder a create call stores, given the fresh identifier drawn
/// for it.
pub open spec fn spec_created_reminder(
    user: Seq<char>,
    input: CreateReminderInput,
    now: i64,
    id: Seq<char>,
) -> ReminderView {
    let due = spec_rfc3339_epoch(input.due_at@)->Some_0;
    let rule = spec_parse_rule_opt(input.recurrence_rule);
    ReminderView {
        id: id,
        user_id: user,
        title: input.title@,
        description: view_opt_str(input.description),
        account_id: view_opt_str(input.account_id),
        account_name: None,
        amount_cents: input.amount_cents,
        due_at: due,
        recurrence_rule: rule,
        next_fire_at: crate::recurrence::spec_next_fire_i64(due as int, rule, now as int),
        channel: match input.channel {
            Option::Some(c) => c,
            Option::None => ReminderChannel::Toast,
        },
        snooze_minutes: Some(
            match input.snooze_minutes {
                Option::Some(m) => m,
                Option::None => 0i32,
            },
        ),
        last_triggered_at: None,
        status: ReminderStatus::Scheduled,
        created_at: now,
    }
}

/// The reminder store, scoped to one user. Every operation works on a
/// [`Database`] value handed in by the caller; the current time is an
/// argument, so every transition is deterministic and testable.
pub struct SqliteReminderService {
    user_id: String,
}

impl SqliteReminderService {
    /// The user whose reminders this service manages.
    pub closed spec fn spec_user_id(&self) -> Seq<char> {
        self.user_id@
    }

    pub fn new(user_id: Option<String>) -> (r: ReminderResult<Self>)
        ensures
            r is Ok,
            user_id is Some ==> r->Ok_0.spec_user_id() == user_id->Some_0@,
            user_id is None ==> r->Ok_0.spec_user_id() == "seed-user"@,
    {
        match user_id {
            Some(id) => Ok(Self { user_id: id }),
            None => Ok(Self { user_id: String::from_str("seed-user") }),
        }
    }

    pub fn descriptor(&self) -> (r: ServiceDescriptor)
        ensures
            r.name@ == "ReminderService"@,
            r.provider@ == "sqlite"@,
    {
        ServiceDescriptor::new("ReminderService", "sqlite")
    }

    /// The index of the first stored reminder of this user with `id`.
    fn find_index(&self, reminders: &Vec<ReminderDto>, id: &str) -> (r: Option<usize>)
        ensures
            ({
                let views = reminders@.map_values(|x: ReminderDto| x@);
                match r {
                    Option::Some(ix) => {
                        &&& ix < views.len()
                        &&& reminder_matches(views[ix as int], self.spec_user_id(), id@)
                        &&& spec_find_reminder(views, self.spec_user_id(), id@) == Some(
                            views[ix as int],
                        )
                        &&& forall|j: int|
                            0 <= j < ix ==> !reminder_matches(
                                #[trigger] views[j],
                                self.spec_user_id(),
                                id@,
                            )
                    },
                    Option::None => {
                        &&& spec_find_reminder(views, self.spec_user_id(), id@) is None
                        &&& forall|j: int|
                            0 <= j < views.len() ==> !reminder_matches(
                                #[trigger] views[j],
                                self.spec_user_id(),
                                id@,
                            )
                    },
                }
            }),
    {
        let ghost views = reminders@.map_values(|x: ReminderDto| x@);
        let mut i: usize = 0;
        proof {
            assert(views.subrange(0, views.len() as int) =~= views);
        }
        while i < reminders.len()
            invariant
                i <= reminders@.len(),
                views == reminders@.map_values(|x: ReminderDto| x@),
                spec_find_reminder(views, self.spec_user_id(), id@) == spec_find_reminder(
                    views.subrange(i as int, views.len() as int),
                    self.spec_user_id(),
                    id@,
                ),
                forall|j: int|
                    0 <= j < i ==> !reminder_matches(
                        #[trigger] views[j],
                        self.spec_user_id(),
                        id@,
                    ),
            decreases reminders@.len() - i,
        {
            proof {
                let rest = views.subrange(i as int, views.len() as int);
                assert(rest[0] == views[i as int]);
                assert(rest.subrange(1, rest.len() as int) =~= views.subrange(
                    i as int + 1,
                    views.len() as int,
                ));
            }
            let row = &reminders[i];
            if crate::strutil::str_eq(row.id.as_str(), id) && crate::strutil::str_eq(
                row.user_id.as_str(),
                self.user_id.as_str(),
            ) {
                return Some(i);
            }
            i += 1;
        }
        proof {
            assert(views.subrange(i as int, views.len() as int).len() == 0);
        }
        None
    }

    /// Append one audit-trail entry; nothing else changes.
    fn append_log(
        &self,
        db: &mut Database,
        reminder_id: &str,
        action: &'static str,
        metadata: Option<String>,
        now: i64,
    )
        ensures
            log_appended(
                old(db).logs_v(),
                final(db).logs_v(),
                reminder_id@,
                action@,
                view_opt_str(metadata),
                now,
            ),
            final(db).debts@ == old(db).debts@,
            final(db).schedules@ == old(db).schedules@,
            final(db).reminders@ == old(db).reminders@,
            final(db).transactions@ == old(db).transactions@,
            final(db).monthly_plans@ == old(db).monthly_plans@,
            final(db).planned_incomes@ == old(db).planned_incomes@,
            final(db).planned_expenses@ == old(db).planned_expenses@,
            final(db).planned_savings@ == old(db).planned_savings@,
    {
        let ghost meta_view = view_opt_str(metadata);
        let entry = ReminderLogDto {
            id: fresh_uuid(),
            reminder_id: String::from_str(reminder_id),
            action: String::from_str(action),
            metadata: metadata,
            created_at: now,
        };
        db.reminder_logs.push(entry);
        proof {
            assert(final(db).logs_v().subrange(0, old(db).logs_v().len() as int) =~= old(
                db,
            ).logs_v());
        }
    }

    /// Fetch one reminder by identifier.
    pub fn get_reminder(&self, db: &Database, id: &str) -> (r: ReminderResult<ReminderDto>)
        ensures
            r is Ok <==> spec_find_reminder(db.reminders_v(), self.spec_user_id(), id@) is Some,
            r matches Ok(rem) ==> rem@ == spec_find_reminder(
                db.reminders_v(),
                self.spec_user_id(),
                id@,
            )->Some_0,
            r matches Err(e) ==> e is NotFound,
    {
        match self.find_index(&db.reminders, id) {
            Some(ix) => Ok(db.reminders[ix].clone()),
            None => Err(ReminderServiceError::NotFound(not_found_message(id))),
        }
    }
}

impl SqliteReminderService {
    /// Create a reminder. The due text must parse as RFC 3339, and a
    /// reminder that neither lies in the future nor recurs is rejected:
    /// it could never fire.
    pub fn create_reminder(&self, db: &mut Database, input: CreateReminderInput, now: i64) -> (r:
        ReminderResult<ReminderDto>)
        requires
            db_wf(*old(db)),
            -TS_BOUND <= now <= TS_BOUND,
        ensures
            db_wf(*final(db)),
            db_same_except_reminders(*old(db), *final(db)),
            r is Ok <==> spec_create_ok(input, now),
            r matches Err(e) ==> e is Validation && *final(db) == *old(db),
            r matches Ok(rem) ==> rem@ == spec_created_reminder(
                self.spec_user_id(),
                input,
                now,
                rem@.id,
            ) && final(db).reminders_v() == old(db).reminders_v().push(rem@) && log_appended(
                old(db).logs_v(),
                final(db).logs_v(),
                rem@.id,
                "created"@,
                None,
                now,
            ),
    {
        let due = match parse_rfc3339_epoch(input.due_at.as_str()) {
            Some(t) => t,
            None => {
                return Err(
                    ReminderServiceError::Validation(String::from_str("Invalid due_at")),
                );
            },
        };
        if due < -TS_BOUND || due > TS_BOUND {
            return Err(
                ReminderServiceError::Validation(String::from_str("due_at is out of range")),
            );
        }
        let rule = match &input.recurrence_rule {
            Some(text) => parse_rule(text.as_str()),
            None => None,
        };
        if due <= now && rule.is_none() {
            return Err(
                ReminderServiceError::Validation(
                    String::from_str("due_at must be in the future for non-recurring reminders"),
                ),
            );
        }
        let next = next_fire_at(due, rule, now);
        let id = fresh_uuid();
        let reminder_id = id.clone();
        let stored = ReminderDto {
            id: id,
            user_id: self.user_id.clone(),
            title: input.title,
            description: input.description,
            account_id: input.account_id,
            account_name: None,
            amount_cents: input.amount_cents,
            due_at: due,
            recurrence_rule: rule,
            next_fire_at: next,
            channel: match input.channel {
                Some(c) => c,
                None => ReminderChannel::Toast,
            },
            snooze_minutes: Some(
                match input.snooze_minutes {
                    Some(m) => m,
                    None => 0,
                },
            ),
            last_triggered_at: None,
            status: ReminderStatus::Scheduled,
            created_at: now,
        };
        let result = stored.clone();
        db.reminders.push(stored);
        proof {
            assert(db.reminders_v() =~= old(db).reminders_v().push(result@));
        }
        self.append_log(db, reminder_id.as_str(), "created", None, now);
        Ok(result)
    }

    /// Delete every stored reminder of this user with `id`; an unknown
    /// identifier is an error.
    pub fn delete_reminder(&self, db: &mut Database, id: &str) -> (r: ReminderResult<()>)
        requires
            db_wf(*old(db)),
        ensures
            db_wf(*final(db)),
            db_same_except_reminders(*old(db), *final(db)),
            final(db).reminder_logs@ == old(db).reminder_logs@,
            r is Ok <==> spec_find_reminder(old(db).reminders_v(), self.spec_user_id(), id@)
                is Some,
            r matches Err(e) ==> e is NotFound && *final(db) == *old(db),
            r is Ok ==> final(db).reminders_v() == old(db).reminders_v().filter(
                |rv: ReminderView| !reminder_matches(rv, self.spec_user_id(), id@),
            ),
    {
        let ghost user = self.spec_user_id();
        let ghost views = old(db).reminders_v();
        let found = self.find_index(&db.reminders, id);
        if found.is_none() {
            return Err(ReminderServiceError::NotFound(not_found_message(id)));
        }
        let mut kept: Vec<ReminderDto> = Vec::new();
        let mut i: usize = 0;
        proof {
            reveal(Seq::filter);
            assert(views.subrange(0, 0) =~= Seq::<ReminderView>::empty());
            assert(Seq::<ReminderView>::empty().filter(
                |rv: ReminderView| !reminder_matches(rv, user, id@),
            ) =~= Seq::<ReminderView>::empty());
        }
        while i < db.reminders.len()
            invariant
                i <= db.reminders@.len(),
                db.reminders@ == old(db).reminders@,
                views == old(db).reminders_v(),
                user == self.spec_user_id(),
                kept@.map_values(|x: ReminderDto| x@) == views.subrange(0, i as int).filter(
                    |rv: ReminderView| !reminder_matches(rv, user, id@),
                ),
            decreases db.reminders@.len() - i,
        {
            let ghost prefix = views.subrange(0, i as int);
            let ghost prefix_next = views.subrange(0, i as int + 1);
            proof {
                reveal(Seq::filter);
                assert(prefix_next.drop_last() =~= prefix);
                assert(prefix_next.last() == views[i as int]);
            }
            let row = &db.reminders[i];
            let keep = !(crate::strutil::str_eq(row.id.as_str(), id) && crate::strutil::str_eq(
                row.user_id.as_str(),
                self.user_id.as_str(),
            ));
            if keep {
                kept.push(row.clone());
            }
            i += 1;
            proof {
                reveal(Seq::filter);
                assert(prefix_next.filter(|rv: ReminderView| !reminder_matches(rv, user, id@))
                    == if reminder_matches(prefix_next.last(), user, id@) {
                    prefix.filter(|rv: ReminderView| !reminder_matches(rv, user, id@))
                } else {
                    prefix.filter(|rv: ReminderView| !reminder_matches(rv, user, id@)).push(
                        prefix_next.last(),
                    )
                });
                assert(kept@.map_values(|x: ReminderDto| x@) =~= prefix_next.filter(
                    |rv: ReminderView| !reminder_matches(rv, user, id@),
                ));
            }
        }
        db.reminders = kept;
        proof {
            assert(views.subrange(0, views.len() as int) =~= views);
            let pred = |rv: ReminderView| !reminder_matches(rv, user, id@);
            let filtered = views.filter(pred);
            assert(db.reminders_v() =~= filtered);
            assert forall|j: int| 0 <= j < db.reminders@.len() implies reminder_wf(
                (#[trigger] db.reminders@[j])@,
            ) by {
                assert(db.reminders@[j]@ == db.reminders_v()[j]);
                crate::database::lemma_filter_elements_contained(views, pred, j);
                let rv = filtered[j];
                let k = choose|k: int| 0 <= k < views.len() && views[k] == rv;
                assert(old(db).reminders@[k]@ == views[k]);
                assert(reminder_wf(old(db).reminders@[k]@));
            }
        }
        Ok(())
    }
}

/// Whether an update call's due text is acceptable: absent, or parsing
/// to a timestamp in range.
pub open spec fn spec_update_due_ok(input: UpdateReminderInput) -> bool {
    match input.due_at {
        Option::None => true,
        Option::Some(s) => spec_rfc3339_epoch(s@) is Some && -TS_BOUND <= spec_rfc3339_epoch(
            s@,
        )->Some_0 <= TS_BOUND,
    }
}

/// The due time an update call settles on.
pub open spec fn spec_update_due(existing: ReminderView, input: UpdateReminderInput) -> i64 {
    match input.due_at {
        Option::None => existing.due_at,
        Option::Some(s) => spec_rfc3339_epoch(s@)->Some_0,
    }
}

/// The rule an update call settles on.
pub open spec fn spec_update_rule(existing: ReminderView, input: UpdateReminderInput) -> Option<
    RecurrenceRule,
> {
    match input.recurrence_rule {
        Option::None => existing.recurrence_rule,
        Option::Some(s) => spec_parse_rule(s@),
    }
}

/// One row as an update call leaves it: fields of the input override the
/// first matching row's fields; the row's own identity, creation time and
/// last trigger are kept; the next fire time is recomputed.
pub open spec fn spec_apply_update(
    row: ReminderView,
    existing: ReminderView,
    input: UpdateReminderInput,
    now: i64,
) -> ReminderView {
    let due = spec_update_due(existing, input);
    let rule = spec_update_rule(existing, input);
    ReminderView {
        id: row.id,
        user_id: row.user_id,
        title: match input.title {
            Option::Some(t) => t@,
            Option::None => existing.title,
        },
        description: match input.description {
            Option::Some(d) => Some(d@),
            Option::None => existing.description,
        },
        account_id: match input.account_id {
            Option::Some(a) => Some(a@),
            Option::None => existing.account_id,
        },
        account_name: row.account_name,
        amount_cents: match input.amount_cents {
            Option::Some(a) => Some(a),
            Option::None => existing.amount_cents,
        },
        due_at: due,
        recurrence_rule: rule,
        next_fire_at: crate::recurrence::spec_next_fire_i64(due as int, rule, now as int),
        channel: match input.channel {
            Option::Some(c) => c,
            Option::None => existing.channel,
        },
        snooze_minutes: Some(
            match input.snooze_minutes {
                Option::Some(m) => m,
                Option::None => (
                match existing.snooze_minutes {
                    Option::Some(m0) => m0,
                    Option::None => 0i32,
                }),
            },
        ),
        last_triggered_at: row.last_triggered_at,
        status: match input.status {
            Option::Some(s) => s,
            Option::None => existing.status,
        },
        created_at: row.created_at,
    }
}

/// One row as a snooze call leaves it: re-armed at `next`, snoozed.
pub open spec fn spec_apply_snooze(row: ReminderView, next: i64, minutes: i32) -> ReminderView {
    ReminderView {
        due_at: next,
        next_fire_at: Some(next),
        status: ReminderStatus::Snoozed,
        snooze_minutes: Some(minutes),
        ..row
    }
}

/// One row as a dismiss call leaves it: dismissed, never firing again.
pub open spec fn spec_apply_dismiss(row: ReminderView) -> ReminderView {
    ReminderView { status: ReminderStatus::Dismissed, next_fire_at: None, ..row }
}

/// The next fire time a mark-sent call computes: recomputed from the
/// reminder's own due time and rule when it recurs, otherwise nothing.
pub open spec fn spec_mark_sent_next(existing: ReminderView, now: i64) -> Option<i64> {
    match existing.recurrence_rule {
        Option::Some(_) => crate::recurrence::spec_next_fire_i64(
            existing.due_at as int,
            existing.recurrence_rule,
            now as int,
        ),
        Option::None => None,
    }
}

/// One row as a mark-sent call leaves it: re-scheduled when a next fire
/// time exists, else left as sent; the trigger time is recorded.
pub open spec fn spec_apply_mark_sent(row: ReminderView, next: Option<i64>, now: i64) -> ReminderView {
    ReminderView {
        status: if next is Some {
            ReminderStatus::Scheduled
        } else {
            ReminderStatus::Sent
        },
        last_triggered_at: Some(now),
        next_fire_at: next,
        ..row
    }
}

impl SqliteReminderService {
    /// Update every stored reminder of this user with the input's
    /// identifier. Fields absent from the input keep the value of the
    /// first matching row; the next fire time is recomputed from the
    /// settled due time and rule.
    pub fn update_reminder(&self, db: &mut Database, input: UpdateReminderInput, now: i64) -> (r:
        ReminderResult<ReminderDto>)
        requires
            db_wf(*old(db)),
            -TS_BOUND <= now <= TS_BOUND,
        ensures
            db_wf(*final(db)),
            db_same_except_reminders(*old(db), *final(db)),
            ({
                let found = spec_find_reminder(
                    old(db).reminders_v(),
                    self.spec_user_id(),
                    input.id@,
                );
                &&& (r is Ok <==> found is Some && spec_update_due_ok(input))
                &&& (r matches Err(e) ==> *final(db) == *old(db) && (e is NotFound
                    <==> found is None) && (e is Validation <==> found is Some
                    && !spec_update_due_ok(input)))
                &&& (r matches Ok(rem) ==> {
                    let existing = found->Some_0;
                    &&& rem@ == spec_apply_update(existing, existing, input, now)
                    &&& final(db).reminders@.len() == old(db).reminders@.len()
                    &&& forall|j: int|
                        0 <= j < old(db).reminders@.len() ==> (#[trigger] final(db).reminders@[j])@
                            == (
                        if reminder_matches(
                            old(db).reminders@[j]@,
                            self.spec_user_id(),
                            input.id@,
                        ) {
                            spec_apply_update(old(db).reminders@[j]@, existing, input, now)
                        } else {
                            old(db).reminders@[j]@
                        })
                    &&& log_appended(
                        old(db).logs_v(),
                        final(db).logs_v(),
                        input.id@,
                        "updated"@,
                        None,
                        now,
                    )
                })
            }),
    {
        let ix = match self.find_index(&db.reminders, input.id.as_str()) {
            Some(ix) => ix,
            None => {
                return Err(ReminderServiceError::NotFound(not_found_message(input.id.as_str())));
            },
        };
        let existing = db.reminders[ix].clone();
        let due: i64 = match &input.due_at {
            Some(text) => {
                match parse_rfc3339_epoch(text.as_str()) {
                    Some(t) => {
                        if t < -TS_BOUND || t > TS_BOUND {
                            return Err(
                                ReminderServiceError::Validation(
                                    String::from_str("due_at is out of range"),
                                ),
                            );
                        }
                        t
                    },
                    None => {
                        return Err(
                            ReminderServiceError::Validation(String::from_str("Invalid due_at")),
                        );
                    },
                }
            },
            None => existing.due_at,
        };
        let rule = match &input.recurrence_rule {
            Some(text) => parse_rule(text.as_str()),
            None => existing.recurrence_rule,
        };
        let next = next_fire_at(due, rule, now);
        let ghost user = self.spec_user_id();
        let ghost orig = db.reminders@;
        let mut i: usize = 0;
        while i < db.reminders.len()
            invariant
                i <= db.reminders@.len(),
                db.reminders@.len() == orig.len(),
                user == self.spec_user_id(),
                due == spec_update_due(existing@, input),
                rule == spec_update_rule(existing@, input),
                next == crate::recurrence::spec_next_fire_i64(due as int, rule, now as int),
                forall|j: int| i <= j < orig.len() ==> db.reminders@[j] == orig[j],
                forall|j: int|
                    0 <= j < i ==> (#[trigger] db.reminders@[j])@ == (
                    if reminder_matches(orig[j]@, user, input.id@) {
                        spec_apply_update(orig[j]@, existing@, input, now)
                    } else {
                        orig[j]@
                    }),
                db.reminder_logs@ == old(db).reminder_logs@,
                db.debts@ == old(db).debts@,
                db.schedules@ == old(db).schedules@,
                db.transactions@ == old(db).transactions@,
                db.monthly_plans@ == old(db).monthly_plans@,
                db.planned_incomes@ == old(db).planned_incomes@,
                db.planned_expenses@ == old(db).planned_expenses@,
                db.planned_savings@ == old(db).planned_savings@,
            decreases db.reminders@.len() - i,
        {
            let row_matches = ({
                let row = &db.reminders[i];
                crate::strutil::str_eq(row.id.as_str(), input.id.as_str())
                    && crate::strutil::str_eq(row.user_id.as_str(), self.user_id.as_str())
            });
            if row_matches {
                let new_row = ({
                    let row = &db.reminders[i];
                    ReminderDto {
                        id: row.id.clone(),
                        user_id: row.user_id.clone(),
                        title: match &input.title {
                            Some(t) => t.clone(),
                            None => existing.title.clone(),
                        },
                        description: match &input.description {
                            Some(d) => Some(d.clone()),
                            None => crate::strutil::clone_opt_string(&existing.description),
                        },
                        account_id: match &input.account_id {
                            Some(a) => Some(a.clone()),
                            None => crate::strutil::clone_opt_string(&existing.account_id),
                        },
                        account_name: crate::strutil::clone_opt_string(&row.account_name),
                        amount_cents: match input.amount_cents {
                            Some(a) => Some(a),
                            None => existing.amount_cents,
                        },
                        due_at: due,
                        recurrence_rule: rule,
                        next_fire_at: next,
                        channel: match input.channel {
                            Some(c) => c,
                            None => existing.channel,
                        },
                        snooze_minutes: Some(
                            match input.snooze_minutes {
                                Some(m) => m,
                                None => (
                                match existing.snooze_minutes {
                                    Some(m0) => m0,
                                    None => 0,
                                }),
                            },
                        ),
                        last_triggered_at: row.last_triggered_at,
                        status: match input.status {
                            Some(s) => s,
                            None => existing.status,
                        },
                        created_at: row.created_at,
                    }
                });
                db.reminders[i] = new_row;
            }
            i += 1;
        }
        let result = db.reminders[ix].clone();
        self.append_log(db, input.id.as_str(), "updated", None, now);
        Ok(result)
    }
}

impl SqliteReminderService {
    /// Push a reminder's next fire time out by a positive number of
    /// minutes, measured from its current next fire time or from now,
    /// whichever is later; the reminder becomes snoozed and its due time
    /// moves with it.
    pub fn snooze_reminder(&self, db: &mut Database, input: SnoozeReminderInput, now: i64) -> (r:
        ReminderResult<ReminderDto>)
        requires
            db_wf(*old(db)),
            -TS_BOUND <= now <= TS_BOUND,
        ensures
            db_wf(*final(db)),
            db_same_except_reminders(*old(db), *final(db)),
            ({
                let found = spec_find_reminder(
                    old(db).reminders_v(),
                    self.spec_user_id(),
                    input.id@,
                );
                let base = (
                match found->Some_0.next_fire_at {
                    Option::Some(cur) => (
                    if cur >= now {
                        cur
                    } else {
                        now
                    }),
                    Option::None => now,
                });
                let next = base + input.snooze_minutes as int * 60;
                &&& (r is Ok <==> input.snooze_minutes > 0 && found is Some && -FIRE_BOUND <= next
                    <= FIRE_BOUND)
                &&& (r matches Err(e) ==> *final(db) == *old(db) && (input.snooze_minutes <= 0
                    ==> e is Validation) && (input.snooze_minutes > 0 && found is None
                    ==> e is NotFound))
                &&& (r matches Ok(rem) ==> {
                    &&& rem@ == spec_apply_snooze(found->Some_0, next as i64, input.snooze_minutes)
                    &&& final(db).reminders@.len() == old(db).reminders@.len()
                    &&& forall|j: int|
                        0 <= j < old(db).reminders@.len() ==> (#[trigger] final(db).reminders@[j])@
                            == (
                        if reminder_matches(
                            old(db).reminders@[j]@,
                            self.spec_user_id(),
                            input.id@,
                        ) {
                            spec_apply_snooze(
                                old(db).reminders@[j]@,
                                next as i64,
                                input.snooze_minutes,
                            )
                        } else {
                            old(db).reminders@[j]@
                        })
                    &&& log_appended(
                        old(db).logs_v(),
                        final(db).logs_v(),
                        input.id@,
                        "snoozed"@,
                        Some(
                            crate::strutil::spec_decimal(input.snooze_minutes as int)
                                + " minutes"@,
                        ),
                        now,
                    )
                })
            }),
    {
        if input.snooze_minutes <= 0 {
            return Err(
                ReminderServiceError::Validation(
                    String::from_str("snooze_minutes must be positive"),
                ),
            );
        }
        let ix = match self.find_index(&db.reminders, input.id.as_str()) {
            Some(ix) => ix,
            None => {
                return Err(ReminderServiceError::NotFound(not_found_message(input.id.as_str())));
            },
        };
        let existing = db.reminders[ix].clone();
        let base: i64 = match existing.next_fire_at {
            Some(cur) => if cur >= now {
                cur
            } else {
                now
            },
            None => now,
        };
        let next: i64 = base + (input.snooze_minutes as i64) * 60;
        if next < -FIRE_BOUND || next > FIRE_BOUND {
            return Err(
                ReminderServiceError::Validation(
                    String::from_str("snoozed fire time is out of range"),
                ),
            );
        }
        let ghost user = self.spec_user_id();
        let ghost orig = db.reminders@;
        let mut i: usize = 0;
        while i < db.reminders.len()
            invariant
                i <= db.reminders@.len(),
                db.reminders@.len() == orig.len(),
                user == self.spec_user_id(),
                -FIRE_BOUND <= next <= FIRE_BOUND,
                forall|j: int| i <= j < orig.len() ==> db.reminders@[j] == orig[j],
                forall|j: int|
                    0 <= j < i ==> (#[trigger] db.reminders@[j])@ == (
                    if reminder_matches(orig[j]@, user, input.id@) {
                        spec_apply_snooze(orig[j]@, next, input.snooze_minutes)
                    } else {
                        orig[j]@
                    }),
                db.reminder_logs@ == old(db).reminder_logs@,
                db.debts@ == old(db).debts@,
                db.schedules@ == old(db).schedules@,
                db.transactions@ == old(db).transactions@,
                db.monthly_plans@ == old(db).monthly_plans@,
                db.planned_incomes@ == old(db).planned_incomes@,
                db.planned_expenses@ == old(db).planned_expenses@,
                db.planned_savings@ == old(db).planned_savings@,
            decreases db.reminders@.len() - i,
        {
            let row_matches = ({
                let row = &db.reminders[i];
                crate::strutil::str_eq(row.id.as_str(), input.id.as_str())
                    && crate::strutil::str_eq(row.user_id.as_str(), self.user_id.as_str())
            });
            if row_matches {
                let new_row = ({
                    let row = &db.reminders[i];
                    ReminderDto {
                        id: row.id.clone(),
                        user_id: row.user_id.clone(),
                        title: row.title.clone(),
                        description: crate::strutil::clone_opt_string(&row.description),
                        account_id: crate::strutil::clone_opt_string(&row.account_id),
                        account_name: crate::strutil::clone_opt_string(&row.account_name),
                        amount_cents: row.amount_cents,
                        due_at: next,
                        recurrence_rule: row.recurrence_rule,
                        next_fire_at: Some(next),
                        channel: row.channel,
                        snooze_minutes: Some(input.snooze_minutes),
                        last_triggered_at: row.last_triggered_at,
                        status: ReminderStatus::Snoozed,
                        created_at: row.created_at,
                    }
                });
                db.reminders[i] = new_row;
            }
            i += 1;
        }
        let result = db.reminders[ix].clone();
        let minutes_text = minutes_message(input.snooze_minutes);
        self.append_log(db, input.id.as_str(), "snoozed", Some(minutes_text), now);
        Ok(result)
    }

    /// Dismiss a reminder: it keeps its history but never fires again.
    pub fn dismiss_reminder(&self, db: &mut Database, input: DismissReminderInput, now: i64) -> (r:
        ReminderResult<ReminderDto>)
        requires
            db_wf(*old(db)),
        ensures
            db_wf(*final(db)),
            db_same_except_reminders(*old(db), *final(db)),
            ({
                let found = spec_find_reminder(
                    old(db).reminders_v(),
                    self.spec_user_id(),
                    input.id@,
                );
                &&& (r is Ok <==> found is Some)
                &&& (r matches Err(e) ==> e is NotFound && *final(db) == *old(db))
                &&& (r matches Ok(rem) ==> {
                    &&& rem@ == spec_apply_dismiss(found->Some_0)
                    &&& final(db).reminders@.len() == old(db).reminders@.len()
                    &&& forall|j: int|
                        0 <= j < old(db).reminders@.len() ==> (#[trigger] final(db).reminders@[j])@
                            == (
                        if reminder_matches(
                            old(db).reminders@[j]@,
                            self.spec_user_id(),
                            input.id@,
                        ) {
                            spec_apply_dismiss(old(db).reminders@[j]@)
                        } else {
                            old(db).reminders@[j]@
                        })
                    &&& log_appended(
                        old(db).logs_v(),
                        final(db).logs_v(),
                        input.id@,
                        "dismissed"@,
                        None,
                        now,
                    )
                })
            }),
    {
        let ix = match self.find_index(&db.reminders, input.id.as_str()) {
            Some(ix) => ix,
            None => {
                return Err(ReminderServiceError::NotFound(not_found_message(input.id.as_str())));
            },
        };
        let ghost user = self.spec_user_id();
        let ghost orig = db.reminders@;
        let mut i: usize = 0;
        while i < db.reminders.len()
            invariant
                i <= db.reminders@.len(),
                db.reminders@.len() == orig.len(),
                user == self.spec_user_id(),
                forall|j: int| i <= j < orig.len() ==> db.reminders@[j] == orig[j],
                forall|j: int|
                    0 <= j < i ==> (#[trigger] db.reminders@[j])@ == (
                    if reminder_matches(orig[j]@, user, input.id@) {
                        spec_apply_dismiss(orig[j]@)
                    } else {
                        orig[j]@
                    }),
                db.reminder_logs@ == old(db).reminder_logs@,
                db.debts@ == old(db).debts@,
                db.schedules@ == old(db).schedules@,
                db.transactions@ == old(db).transactions@,
                db.monthly_plans@ == old(db).monthly_plans@,
                db.planned_incomes@ == old(db).planned_incomes@,
                db.planned_expenses@ == old(db).planned_expenses@,
                db.planned_savings@ == old(db).planned_savings@,
            decreases db.reminders@.len() - i,
        {
            let row_matches = ({
                let row = &db.reminders[i];
                crate::strutil::str_eq(row.id.as_str(), input.id.as_str())
                    && crate::strutil::str_eq(row.user_id.as_str(), self.user_id.as_str())
            });
            if row_matches {
                let new_row = ({
                    let row = &db.reminders[i];
                    ReminderDto {
                        id: row.id.clone(),
                        user_id: row.user_id.clone(),
                        title: row.title.clone(),
                        description: crate::strutil::clone_opt_string(&row.description),
                        account_id: crate::strutil::clone_opt_string(&row.account_id),
                        account_name: crate::strutil::clone_opt_string(&row.account_name),
                        amount_cents: row.amount_cents,
                        due_at: row.due_at,
                        recurrence_rule: row.recurrence_rule,
                        next_fire_at: None,
                        channel: row.channel,
                        snooze_minutes: row.snooze_minutes,
                        last_triggered_at: row.last_triggered_at,
                        status: ReminderStatus::Dismissed,
                        created_at: row.created_at,
                    }
                });
                db.reminders[i] = new_row;
            }
            i += 1;
        }
        let result = db.reminders[ix].clone();
        self.append_log(db, input.id.as_str(), "dismissed", None, now);
        Ok(result)
    }

    /// Mark a reminder as sent at `now`. A recurring reminder is
    /// immediately re-armed: its next fire time is recomputed from its
    /// own due time and rule, and it goes back to scheduled so the next
    /// poll picks it up; a non-recurring one stays sent, terminal.
    pub fn mark_reminder_sent(&self, db: &mut Database, id: &str, now: i64) -> (r: ReminderResult<
        ReminderDto,
    >)
        requires
            db_wf(*old(db)),
            -TS_BOUND <= now <= TS_BOUND,
        ensures
            db_wf(*final(db)),
            db_same_except_reminders(*old(db), *final(db)),
            ({
                let found = spec_find_reminder(old(db).reminders_v(), self.spec_user_id(), id@);
                let next = spec_mark_sent_next(found->Some_0, now);
                &&& (r is Ok <==> found is Some)
                &&& (r matches Err(e) ==> e is NotFound && *final(db) == *old(db))
                &&& (r matches Ok(rem) ==> {
                    &&& rem@ == spec_apply_mark_sent(found->Some_0, next, now)
                    &&& final(db).reminders@.len() == old(db).reminders@.len()
                    &&& forall|j: int|
                        0 <= j < old(db).reminders@.len() ==> (#[trigger] final(db).reminders@[j])@
                            == (
                        if reminder_matches(old(db).reminders@[j]@, self.spec_user_id(), id@) {
                            spec_apply_mark_sent(old(db).reminders@[j]@, next, now)
                        } else {
                            old(db).reminders@[j]@
                        })
                    &&& log_appended(
                        old(db).logs_v(),
                        final(db).logs_v(),
                        id@,
                        "sent"@,
                        None,
                        now,
                    )
                })
            }),
    {
        let ix = match self.find_index(&db.reminders, id) {
            Some(ix) => ix,
            None => {
                return Err(ReminderServiceError::NotFound(not_found_message(id)));
            },
        };
        let existing = db.reminders[ix].clone();
        let next: Option<i64> = if existing.recurrence_rule.is_some() {
            next_fire_at(existing.due_at, existing.recurrence_rule, now)
        } else {
            None
        };
        let ghost user = self.spec_user_id();
        let ghost orig = db.reminders@;
        let mut i: usize = 0;
        while i < db.reminders.len()
            invariant
                i <= db.reminders@.len(),
                db.reminders@.len() == orig.len(),
                user == self.spec_user_id(),
                next == spec_mark_sent_next(
                    spec_find_reminder(old(db).reminders_v(), user, id@)->Some_0,
                    now,
                ),
                next matches Some(t) ==> -FIRE_BOUND <= t <= FIRE_BOUND,
                forall|j: int| i <= j < orig.len() ==> db.reminders@[j] == orig[j],
                forall|j: int|
                    0 <= j < i ==> (#[trigger] db.reminders@[j])@ == (
                    if reminder_matches(orig[j]@, user, id@) {
                        spec_apply_mark_sent(orig[j]@, next, now)
                    } else {
                        orig[j]@
                    }),
                db.reminder_logs@ == old(db).reminder_logs@,
                db.debts@ == old(db).debts@,
                db.schedules@ == old(db).schedules@,
                db.transactions@ == old(db).transactions@,
                db.monthly_plans@ == old(db).monthly_plans@,
                db.planned_incomes@ == old(db).planned_incomes@,
                db.planned_expenses@ == old(db).planned_expenses@,
                db.planned_savings@ == old(db).planned_savings@,
            decreases db.reminders@.len() - i,
        {
            let row_matches = ({
                let row = &db.reminders[i];
                crate::strutil::str_eq(row.id.as_str(), id) && crate::strutil::str_eq(
                    row.user_id.as_str(),
                    self.user_id.as_str(),
                )
            });
            if row_matches {
                let new_row = ({
                    let row = &db.reminders[i];
                    ReminderDto {
                        id: row.id.clone(),
                        user_id: row.user_id.clone(),
                        title: row.title.clone(),
                        description: crate::strutil::clone_opt_string(&row.description),
                        account_id: crate::strutil::clone_opt_string(&row.account_id),
                        account_name: crate::strutil::clone_opt_string(&row.account_name),
                        amount_cents: row.amount_cents,
                        due_at: row.due_at,
                        recurrence_rule: row.recurrence_rule,
                        next_fire_at: next,
                        channel: row.channel,
                        snooze_minutes: row.snooze_minutes,
                        last_triggered_at: Some(now),
                        status: if next.is_some() {
                            ReminderStatus::Scheduled
                        } else {
                            ReminderStatus::Sent
                        },
                        created_at: row.created_at,
                    }
                });
                db.reminders[i] = new_row;
            }
            i += 1;
        }
        let result = db.reminders[ix].clone();
        self.append_log(db, id, "sent", None, now);
        Ok(result)
    }
}

/// Whether the poller should fire this reminder at `now`: it belongs to
/// `user`, is scheduled or snoozed, and its next fire time has passed.
pub open spec fn is_due(r: ReminderView, user: Seq<char>, now: i64) -> bool {
    &&& r.user_id == user
    &&& (r.status is Scheduled || r.status is Snoozed)
    &&& (r.next_fire_at matches Some(t) && t <= now)
}

/// The sort key of the due query: the next fire time.
pub open spec fn spec_due_key(r: ReminderView) -> int {
    match r.next_fire_at {
        Option::Some(t) => t as int,
        Option::None => i64::MAX as int,
    }
}

/// The listing order: next fire time ascending with unset times last;
/// ties broken by creation time, newest first.
pub open spec fn spec_list_le(a: ReminderView, b: ReminderView) -> bool {
    match (a.next_fire_at, b.next_fire_at) {
        (Option::Some(x), Option::Some(y)) => x < y || (x == y && a.created_at >= b.created_at),
        (Option::Some(x), Option::None) => true,
        (Option::None, Option::Some(y)) => false,
        (Option::None, Option::None) => a.created_at >= b.created_at,
    }
}

impl SqliteReminderService {
    /// The reminders due at `now`: scheduled or snoozed, with a next
    /// fire time at or before `now`, ordered by next fire time ascending.
    pub fn get_due_reminders(&self, db: &Database, now: i64) -> (r: ReminderResult<
        Vec<ReminderDto>,
    >)
        ensures
            r is Ok,
            ({
                let out = r->Ok_0@.map_values(|x: ReminderDto| x@);
                &&& out.to_multiset() == db.reminders_v().filter(
                    |rv: ReminderView| is_due(rv, self.spec_user_id(), now),
                ).to_multiset()
                &&& forall|i: int| 0 <= i < out.len() ==> is_due(#[trigger] out[i], self.spec_user_id(), now)
                &&& forall|i: int, j: int|
                    0 <= i < j < out.len() ==> spec_due_key(#[trigger] out[i]) <= spec_due_key(
                        #[trigger] out[j],
                    )
            }),
    {
        let ghost user = self.spec_user_id();
        let ghost views = db.reminders_v();
        let ghost pred = |rv: ReminderView| is_due(rv, user, now);
        let mut out: Vec<ReminderDto> = Vec::new();
        let mut i: usize = 0;
        proof {
            reveal(Seq::filter);
            broadcast use vstd::seq_lib::group_to_multiset_ensures;

            assert(views.subrange(0, 0) =~= Seq::<ReminderView>::empty());
            assert(Seq::<ReminderView>::empty().filter(pred) =~= Seq::<ReminderView>::empty());
            assert(out@.map_values(|x: ReminderDto| x@) =~= Seq::<ReminderView>::empty());
        }
        while i < db.reminders.len()
            invariant
                i <= db.reminders@.len(),
                views == db.reminders_v(),
                user == self.spec_user_id(),
                pred == (|rv: ReminderView| is_due(rv, user, now)),
                out@.map_values(|x: ReminderDto| x@).to_multiset() == views.subrange(
                    0,
                    i as int,
                ).filter(pred).to_multiset(),
                forall|k: int|
                    0 <= k < out@.len() ==> is_due(
                        (#[trigger] out@[k])@,
                        user,
                        now,
                    ),
                forall|k: int, l: int|
                    0 <= k < l < out@.len() ==> spec_due_key((#[trigger] out@[k])@) <= spec_due_key(
                        (#[trigger] out@[l])@,
                    ),
            decreases db.reminders@.len() - i,
        {
            let ghost prefix = views.subrange(0, i as int);
            let ghost prefix_next = views.subrange(0, i as int + 1);
            proof {
                reveal(Seq::filter);
                assert(prefix_next.drop_last() =~= prefix);
                assert(prefix_next.last() == views[i as int]);
            }
            let row = &db.reminders[i];
            let row_due = ({
                let status_due = row.status == ReminderStatus::Scheduled || row.status
                    == ReminderStatus::Snoozed;
                let fire_due = match row.next_fire_at {
                    Some(t) => t <= now,
                    None => false,
                };
                status_due && fire_due && crate::strutil::str_eq(
                    row.user_id.as_str(),
                    self.user_id.as_str(),
                )
            });
            if row_due {
                let x = row.clone();
                let ghost xv = x@;
                let kx = match x.next_fire_at {
                    Some(t) => t,
                    None => i64::MAX,
                };
                let mut pos: usize = 0;
                while pos < out.len() && due_key_of(&out[pos]) <= kx
                    invariant
                        pos <= out@.len(),
                        kx as int == spec_due_key(xv),
                        forall|k: int|
                            0 <= k < pos ==> spec_due_key((#[trigger] out@[k])@) <= kx as int,
                    decreases out@.len() - pos,
                {
                    pos += 1;
                }
                let ghost out_before = out@;
                out.insert(pos, x);
                proof {
                    broadcast use vstd::seq_lib::group_to_multiset_ensures;

                    crate::database::lemma_insert_to_multiset(
                        out_before.map_values(|y: ReminderDto| y@),
                        pos as int,
                        xv,
                    );
                    assert(out@.map_values(|y: ReminderDto| y@) =~= out_before.map_values(
                        |y: ReminderDto| y@,
                    ).insert(pos as int, xv));
                    assert(prefix_next.filter(pred) =~= prefix.filter(pred).push(xv));
                    assert(prefix.filter(pred).push(xv).to_multiset() =~= prefix.filter(
                        pred,
                    ).to_multiset().insert(xv));
                }
            } else {
                proof {
                    reveal(Seq::filter);
                    assert(prefix_next.filter(pred) =~= prefix.filter(pred));
                }
            }
            i += 1;
        }
        proof {
            assert(views.subrange(0, views.len() as int) =~= views);
        }
        Ok(out)
    }

    /// The reminders due right now, by the system clock.
    pub fn get_due_reminders_now(&self, db: &Database) -> (r: ReminderResult<Vec<ReminderDto>>)
        ensures
            r is Ok,
            ({
                let out = r->Ok_0@.map_values(|x: ReminderDto| x@);
                &&& forall|i: int|
                    0 <= i < out.len() ==> ((#[trigger] out[i]).user_id == self.spec_user_id() && (
                    out[i].status is Scheduled || out[i].status is Snoozed)
                        && out[i].next_fire_at is Some)
                &&& forall|i: int, j: int|
                    0 <= i < j < out.len() ==> spec_due_key(#[trigger] out[i]) <= spec_due_key(
                        #[trigger] out[j],
                    )
            }),
    {
        let now = utc_now_epoch();
        self.get_due_reminders(db, now)
    }

    /// Every stored reminder of this user, ordered by next fire time
    /// ascending with unset times last, ties newest-created first.
    pub fn list_reminders(&self, db: &Database) -> (r: ReminderResult<Vec<ReminderDto>>)
        ensures
            r is Ok,
            ({
                let out = r->Ok_0@.map_values(|x: ReminderDto| x@);
                &&& out.to_multiset() == db.reminders_v().filter(
                    |rv: ReminderView| rv.user_id == self.spec_user_id(),
                ).to_multiset()
                &&& forall|i: int, j: int|
                    0 <= i < j < out.len() ==> spec_list_le(#[trigger] out[i], #[trigger] out[j])
            }),
    {
        let ghost user = self.spec_user_id();
        let ghost views = db.reminders_v();
        let ghost pred = |rv: ReminderView| rv.user_id == user;
        let mut out: Vec<ReminderDto> = Vec::new();
        let mut i: usize = 0;
        proof {
            reveal(Seq::filter);
            broadcast use vstd::seq_lib::group_to_multiset_ensures;

            assert(views.subrange(0, 0) =~= Seq::<ReminderView>::empty());
            assert(Seq::<ReminderView>::empty().filter(pred) =~= Seq::<ReminderView>::empty());
            assert(out@.map_values(|x: ReminderDto| x@) =~= Seq::<ReminderView>::empty());
        }
        while i < db.reminders.len()
            invariant
                i <= db.reminders@.len(),
                views == db.reminders_v(),
                user == self.spec_user_id(),
                pred == (|rv: ReminderView| rv.user_id == user),
                out@.map_values(|x: ReminderDto| x@).to_multiset() == views.subrange(
                    0,
                    i as int,
                ).filter(pred).to_multiset(),
                forall|k: int, l: int|
                    0 <= k < l < out@.len() ==> spec_list_le(
                        (#[trigger] out@[k])@,
                        (#[trigger] out@[l])@,
                    ),
            decreases db.reminders@.len() - i,
        {
            let ghost prefix = views.subrange(0, i as int);
            let ghost prefix_next = views.subrange(0, i as int + 1);
            proof {
                reveal(Seq::filter);
                assert(prefix_next.drop_last() =~= prefix);
                assert(prefix_next.last() == views[i as int]);
            }
            let row = &db.reminders[i];
            if crate::strutil::str_eq(row.user_id.as_str(), self.user_id.as_str()) {
                let x = row.clone();
                let ghost xv = x@;
                let mut pos: usize = 0;
                while pos < out.len() && list_le_of(&out[pos], &x)
                    invariant
                        pos <= out@.len(),
                        xv == x@,
                        forall|k: int| 0 <= k < pos ==> spec_list_le((#[trigger] out@[k])@, xv),
                    decreases out@.len() - pos,
                {
                    pos += 1;
                }
                let ghost out_before = out@;
                out.insert(pos, x);
                proof {
                    broadcast use vstd::seq_lib::group_to_multiset_ensures;

                    crate::database::lemma_insert_to_multiset(
                        out_before.map_values(|y: ReminderDto| y@),
                        pos as int,
                        xv,
                    );
                    assert(out@.map_values(|y: ReminderDto| y@) =~= out_before.map_values(
                        |y: ReminderDto| y@,
                    ).insert(pos as int, xv));
                    assert(prefix_next.filter(pred) =~= prefix.filter(pred).push(xv));
                    assert(prefix.filter(pred).push(xv).to_multiset() =~= prefix.filter(
                        pred,
                    ).to_multiset().insert(xv));
                }
            } else {
                proof {
                    reveal(Seq::filter);
                    assert(prefix_next.filter(pred) =~= prefix.filter(pred));
                }
            }
            i += 1;
        }
        proof {
            assert(views.subrange(0, views.len() as int) =~= views);
        }
        Ok(out)
    }
}

/// The due-query sort key of a stored reminder.
fn due_key_of(r: &ReminderDto) -> (k: i64)
    ensures
        k as int == spec_due_key(r@),
{
    match r.next_fire_at {
        Some(t) => t,
        None => i64::MAX,
    }
}

/// Whether `a` sorts at or before `b` in the listing order.
fn list_le_of(a: &ReminderDto, b: &ReminderDto) -> (r: bool)
    ensures
        r == spec_list_le(a@, b@),
{
    match (a.next_fire_at, b.next_fire_at) {
        (Some(x), Some(y)) => x < y || (x == y && a.created_at >= b.created_at),
        (Some(_), None) => true,
        (None, Some(_)) => false,
        (None, None) => a.created_at >= b.created_at,
    }
}

/// A non-recurring reminder whose due time has passed is terminal: the
/// recurrence calculator yields no next fire time for it, and a reminder
/// without a next fire time is never due, at any time.
pub proof fn lemma_terminal_reminder_never_due(r: ReminderView, user: Seq<char>, now: i64, later: i64)
    requires
        r.recurrence_rule is None,
        r.due_at <= now,
        r.next_fire_at == crate::recurrence::spec_next_fire_i64(
            r.due_at as int,
            r.recurrence_rule,
            now as int,
        ),
    ensures
        r.next_fire_at is None,
        !is_due(r, user, later),
{
}

/// The metadata text of a snooze log entry: the minute count in decimal,
/// then " minutes".
fn minutes_message(minutes: i32) -> (r: String)
    requires
        minutes > 0,
    ensures
        r@ == crate::strutil::spec_decimal(minutes as int) + " minutes"@,
{
    let mut m = crate::strutil::decimal_string(minutes as u64);
    m.append(" minutes");
    m
}

/// The message of a "reminder not found" error.
fn not_found_message(id: &str) -> (r: String)
    ensures
        r@ == "Reminder "@ + id@ + " not found"@,
{
    let mut m = String::from_str("Reminder ");
    m.append(id);
    m.append(" not found");
    m
}

} // verus!
