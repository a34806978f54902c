//! The notification shown over the screen and the notification history.

use vstd::prelude::*;
use crate::model::Notification;

verus! {

/// State management for notifications.
#[derive(Debug)]
pub struct NotificationState {
    pub notifications: Vec<Notification>,
    pub notification_history_complete: bool,
    /// The message, the tick at which it closes (if it closes by itself),
    /// and whether it is shown in the minimal style.
    pub current_notification: Option<(String, Option<u64>, bool)>,
}

/// The tick at which a notification shown at `tick` for `ms` closes; the
/// sum stays at the largest `u64` instead of overflowing.
pub open spec fn close_tick(tick: u64, ms: Option<u64>) -> Option<u64> {
    match ms {
        Some(d) => Some(if tick + d > u64::MAX { u64::MAX } else { (tick + d) as u64 }),
        None => None,
    }
}

impl NotificationState {
    /// The state of a new session (see `new`).
    pub open spec fn is_fresh(&self) -> bool {
        &&& self.notifications@.len() == 0
        &&& !self.notification_history_complete
        &&& self.current_notification is None
    }

    /// No history and nothing shown.
    pub fn new() -> (r: NotificationState)
        ensures
            r.is_fresh(),
    {
        NotificationState {
            notifications: Vec::new(),
            notification_history_complete: false,
            current_notification: None,
        }
    }

    /// Shows a message; with a duration it closes that many ticks after
    /// `tick_count`.
    pub fn set_notification(&mut self, message: String, ms: Option<u64>, minimal: bool, tick_count: u64)
        ensures
            final(self).current_notification == Some((message, close_tick(tick_count, ms), minimal)),
            final(self).notifications == old(self).notifications,
            final(self).notification_history_complete == old(self).notification_history_complete,
    {
        let close = match ms {
            Some(d) => Some(tick_count.saturating_add(d)),
            None => None,
        };
        self.current_notification = Some((message, close, minimal));
    }

    /// Closes the message.
    pub fn clear_notification(&mut self)
        ensures
            final(self).current_notification is None,
            final(self).notifications == old(self).notifications,
            final(self).notification_history_complete == old(self).notification_history_complete,
    {
        self.current_notification = None;
    }

    /// Whether the message shown closes by itself and its tick has come.
    pub fn should_close_notification(&self, tick_count: u64) -> (b: bool)
        ensures
            b == (self.current_notification matches Some((_, Some(t), _)) && tick_count >= t),
    {
        match &self.current_notification {
            Some((_, Some(close), _)) => tick_count >= *close,
            _ => false,
        }
    }
}

impl Default for NotificationState {
    fn default() -> (r: NotificationState)
        ensures
            r.notifications@.len() == 0,
            !r.notification_history_complete,
            r.current_notification is None,
    {
        NotificationState::new()
    }
}

} // verus!
