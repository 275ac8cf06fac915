//! Reminder scheduling for a desktop tray utility: a polling timer that
//! decides when to surface the reminder, and the persisted interval setting.
pub mod schedule;
pub mod settings;
