//! Which screen is shown and the state of the menus and popups.

use vstd::prelude::*;
use crate::model::User;
use crate::state::ListSelection;

verus! {

/// The screen the client shows.
#[derive(Debug, Clone, Copy, PartialEq, Eq, Structural)]
pub enum AppMode {
    Login,
    Register,
    MainMenu,
    Settings,
    ForumList,
    ThreadList,
    PostView,
    Chat,
    Input,
    EditProfile,
    ColorPicker,
    Preferences,
    Parameters,
}

/// State management for UI-specific state.
#[derive(Debug)]
pub struct UiState {
    pub mode: AppMode,
    pub should_quit: bool,
    pub should_retry_connection: bool,
    pub tick_count: u64,
    pub main_menu_state: ListSelection,
    pub settings_list_state: ListSelection,
    pub color_picker_selected: usize,
    pub preferences_selected: usize,
    pub show_server_actions: bool,
    pub server_actions_selected: usize,
    pub show_server_invite_selection: bool,
    pub server_invite_selected: usize,
    pub server_invite_target_user: Option<u128>,
    pub show_quit_confirm: bool,
    pub quit_confirm_selected: usize,
    pub show_server_error: bool,
    pub server_error_message: String,
    pub connected_users: Vec<User>,
}

impl UiState {
    /// The state of a new session (see `new`).
    pub open spec fn is_fresh(&self) -> bool {
        &&& self.mode == AppMode::Login
        &&& !self.should_quit
        &&& !self.should_retry_connection
        &&& self.tick_count == 0
        &&& self.main_menu_state.selected is None
        &&& self.settings_list_state.selected is None
        &&& self.color_picker_selected == 0
        &&& self.preferences_selected == 0
        &&& !self.show_server_actions
        &&& self.server_actions_selected == 0
        &&& !self.show_server_invite_selection
        &&& self.server_invite_selected == 0
        &&& self.server_invite_target_user is None
        &&& !self.show_quit_confirm
        &&& self.quit_confirm_selected == 0
        &&& !self.show_server_error
        &&& self.server_error_message@ == Seq::<char>::empty()
        &&& self.connected_users@.len() == 0
    }

    /// The login screen, nothing selected or shown, tick 0.
    pub fn new() -> (r: UiState)
        ensures
            r.is_fresh(),
    {
        UiState {
            mode: AppMode::Login,
            should_quit: false,
            should_retry_connection: false,
            tick_count: 0,
            main_menu_state: ListSelection::new(),
            settings_list_state: ListSelection::new(),
            color_picker_selected: 0,
            preferences_selected: 0,
            show_server_actions: false,
            server_actions_selected: 0,
            show_server_invite_selection: false,
            server_invite_selected: 0,
            server_invite_target_user: None,
            show_quit_confirm: false,
            quit_confirm_selected: 0,
            show_server_error: false,
            server_error_message: String::new(),
            connected_users: Vec::new(),
        }
    }

    /// Shows the given screen.
    pub fn set_mode(&mut self, mode: AppMode)
        ensures
            *final(self) == (UiState { mode: mode, ..*old(self) }),
    {
        self.mode = mode;
    }

    /// Asks the main loop to stop.
    pub fn quit(&mut self)
        ensures
            *final(self) == (UiState { should_quit: true, ..*old(self) }),
    {
        self.should_quit = true;
    }

    /// Counts one tick (the count stays at the largest `u64` instead of
    /// overflowing).
    pub fn tick(&mut self)
        ensures
            *final(self) == (UiState { tick_count: if old(self).tick_count == u64::MAX {
                u64::MAX
            } else {
                (old(self).tick_count + 1) as u64
            }, ..*old(self) }),
    {
        self.tick_count = self.tick_count.saturating_add(1);
    }

    /// Selects the first entry of the main menu and of the settings list.
    pub fn reset_selections(&mut self)
        ensures
            *final(self) == (UiState {
                main_menu_state: ListSelection { selected: Some(0) },
                settings_list_state: ListSelection { selected: Some(0) },
                ..*old(self)
            }),
    {
        self.main_menu_state.select(Some(0));
        self.settings_list_state.select(Some(0));
    }

    /// Shows the server error popup with the message.
    pub fn show_server_error(&mut self, message: String)
        ensures
            *final(self) == (UiState { show_server_error: true, server_error_message: message, ..*old(self) }),
    {
        self.show_server_error = true;
        self.server_error_message = message;
    }

    /// Hides the server error popup and empties its message.
    pub fn hide_server_error(&mut self)
        ensures
            !final(self).show_server_error,
            final(self).server_error_message@ == Seq::<char>::empty(),
            *final(self) == (UiState {
                show_server_error: false,
                server_error_message: final(self).server_error_message,
                ..*old(self)
            }),
    {
        self.show_server_error = false;
        self.server_error_message = String::new();
    }
}

impl Default for UiState {
    fn default() -> (r: UiState)
        ensures
            r.mode == AppMode::Login,
            !r.should_quit,
            r.tick_count == 0,
    {
        UiState::new()
    }
}

} // verus!
