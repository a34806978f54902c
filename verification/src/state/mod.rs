//! The client's state, split by concern.

pub mod auth;
pub mod chat;
pub mod forum;
pub mod notification;
pub mod profile;
pub mod ui;

pub use crate::error::{AppError, AppResult};

use vstd::prelude::*;

verus! {

/// Configuration constants for the application.
#[derive(Debug)]
pub struct AppConfig {
    pub max_message_length: usize,
    pub scroll_lines_per_page: usize,
    pub notification_timeout_ms: u64,
    pub min_two_column_width: u16,
    pub avatar_pixel_size: u32,
}

impl AppConfig {
    /// 500-character messages, 20 lines a page, 4 s notifications, two
    /// columns from 110 cells wide, 32-pixel avatars.
    pub fn default_config() -> (r: AppConfig)
        ensures
            r.max_message_length == 500,
            r.scroll_lines_per_page == 20,
            r.notification_timeout_ms == 4000,
            r.min_two_column_width == 110,
            r.avatar_pixel_size == 32,
    {
        AppConfig {
            max_message_length: 500,
            scroll_lines_per_page: 20,
            notification_timeout_ms: 4000,
            min_two_column_width: 110,
            avatar_pixel_size: 32,
        }
    }
}

impl Default for AppConfig {
    fn default() -> (r: AppConfig)
        ensures
            r.max_message_length == 500,
            r.scroll_lines_per_page == 20,
            r.notification_timeout_ms == 4000,
            r.min_two_column_width == 110,
            r.avatar_pixel_size == 32,
    {
        AppConfig::default_config()
    }
}

/// The selected row of a list widget, if any.
#[derive(Debug, Clone, Copy, PartialEq, Eq, Structural)]
pub struct ListSelection {
    pub selected: Option<usize>,
}

impl ListSelection {
    /// Nothing selected.
    pub fn new() -> (r: ListSelection)
        ensures
            r.selected is None,
    {
        ListSelection { selected: None }
    }

    /// The selected row.
    pub fn selected(&self) -> (r: Option<usize>)
        ensures
            r == self.selected,
    {
        self.selected
    }

    /// Selects a row, or none.
    pub fn select(&mut self, index: Option<usize>)
        ensures
            final(self).selected == index,
    {
        self.selected = index;
    }
}

} // verus!
