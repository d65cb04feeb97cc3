//! A deadline ("D-Day") reminder core: the items a user tracks, the calendar
//! arithmetic that counts the days left, the in-memory edits of the item
//! collection, and the rule that decides which reminders are due at a given
//! minute.
//!
//! Everything here works on plain values. Reading the clock, reading and
//! writing the persisted collection and showing a reminder are left to the
//! caller.

pub mod date;
pub mod scheduler;
pub mod store;
pub mod text;
pub mod todo;

pub use date::calc_days_until;
pub use date::CalendarDate;
pub use scheduler::check_notifications;
pub use scheduler::Reminder;
pub use store::StoreError;
pub use todo::Todo;
