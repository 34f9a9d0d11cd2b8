//! What the administration views show.

use vstd::prelude::*;

verus! {

/// An administrator account as the back office lists it.
#[derive(Debug)]
pub struct Admin {
    pub id: i32,
    pub name: String,
    pub email: String,
    pub role: String,
}

/// Short form of a user for administration lists.
#[derive(Debug)]
pub struct AdminSummary {
    pub id: u128,
    pub name: String,
    pub email: String,
}

/// Counts over the three collections of the store.
#[derive(Clone, Copy, Debug, PartialEq, Eq, Structural)]
pub struct AnalyticsSnapshot {
    pub total_users: usize,
    pub total_courses: usize,
    pub active_payments: usize,
}

} // verus!
