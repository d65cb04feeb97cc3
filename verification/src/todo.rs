//! The item that is tracked.

use vstd::prelude::*;

verus! {

/// One tracked item: a title, the date it counts down to, and when to remind.
#[derive(Debug, Clone, PartialEq, Eq)]
pub struct Todo {
    /// Identifier chosen by whoever creates the item.
    pub id: String,
    /// Human-readable label.
    pub title: String,
    /// Optional free text.
    pub description: Option<String>,
    /// The target date, written as year-month-day.
    pub dday: String,
    /// The time of day, written as `HH:MM`, at which the item may fire.
    pub notification_time: String,
    /// The numbers of days left at which a reminder is wanted.
    pub notify_days: Vec<i64>,
    /// Completed items never fire.
    pub completed: bool,
    /// When the item was created; informational only.
    pub created_at: String,
}

} // verus!
