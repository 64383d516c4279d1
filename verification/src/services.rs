//! The service layer: data types and verified engines for the ledger's
//! domains. The planning and reminder services carry the recurring-
//! obligation engine; the remaining modules hold the data model of the
//! simpler domains around it.

use vstd::prelude::*;

pub mod budgets;
pub mod dashboard;
pub mod goals;
pub mod planning;
pub mod reminders;
pub mod reports;
pub mod settings;
pub mod transactions;

verus! {

/// Identifies a service implementation: its name and which storage
/// provider backs it.
#[derive(Debug, Clone)]
pub struct ServiceDescriptor {
    pub name: &'static str,
    pub provider: &'static str,
}

impl ServiceDescriptor {
    pub fn new(name: &'static str, provider: &'static str) -> (r: Self)
        ensures
            r.name@ == name@,
            r.provider@ == provider@,
    {
        Self { name, provider }
    }
}

} // verus!
