//! A verified personal-finance planning engine.
//!
//! The library models an encrypted local ledger's recurring-obligation
//! engine: amortization schedules for debt accounts, recurrence-aware
//! reminders, a due-reminder polling step, and payment confirmation that
//! bridges into the ledger. All state lives in a [`database::Database`]
//! value; callers supply the current time, which keeps every operation
//! deterministic and fully specified.

pub mod calendar;
pub mod database;
pub mod export;
pub mod interop;
pub mod recurrence;
pub mod secrets;
pub mod services;
pub mod strutil;
