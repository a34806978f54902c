//! Key handling: what each key does on each screen.

pub mod auth;
pub mod chat;
pub mod forum;
pub mod navigation;
pub mod profile;

use vstd::prelude::*;
use crate::app::{App, Effect, queued};
use crate::input::{KeyCode, KeyEvent};
use crate::services::profile::opt_bytes;
use crate::sound::SoundType;
use crate::state::notification::NotificationState;
use crate::state::ui::{AppMode, UiState};

verus! {

/// A key of the quit confirmation: left and right switch between yes and
/// no; enter quits on yes; enter, escape and control-`c` close the popup.
pub open spec fn quit_confirm_key(o: App, n: App, key: KeyEvent) -> bool {
    let s = o.ui.quit_confirm_selected;
    match key.code {
        KeyCode::Left | KeyCode::Right => n == (App {
            ui: UiState { quit_confirm_selected: if s == 0 { 1 } else { 0 }, ..o.ui },
            effects: n.effects,
            ..o
        }) && queued(o, n, seq![Effect::Play(SoundType::Scroll)]),
        KeyCode::Enter => n == (App {
            ui: UiState { should_quit: if s == 0 { true } else { o.ui.should_quit }, show_quit_confirm: false, ..o.ui },
            effects: n.effects,
            ..o
        }) && queued(o, n, seq![Effect::Play(SoundType::PopupClose)]),
        KeyCode::Esc => n == (App { ui: UiState { show_quit_confirm: false, ..o.ui }, effects: n.effects, ..o })
            && queued(o, n, seq![Effect::Play(SoundType::PopupClose)]),
        KeyCode::Char('c') => if key.modifiers.control {
            n == (App { ui: UiState { show_quit_confirm: false, ..o.ui }, effects: n.effects, ..o })
                && queued(o, n, seq![Effect::Play(SoundType::PopupClose)])
        } else {
            n == o
        },
        _ => n == o,
    }
}

fn handle_quit_confirm_input(key: KeyEvent, app: &mut App)
    ensures
        quit_confirm_key(*old(app), *final(app), key),
{
    match key.code {
        KeyCode::Left | KeyCode::Right => {
            app.play(SoundType::Scroll);
            app.ui.quit_confirm_selected = if app.ui.quit_confirm_selected == 0 { 1 } else { 0 };
        },
        KeyCode::Enter => {
            app.play(SoundType::PopupClose);
            if app.ui.quit_confirm_selected == 0 {
                app.ui.quit();
            }
            app.ui.show_quit_confirm = false;
        },
        KeyCode::Esc => {
            app.play(SoundType::PopupClose);
            app.ui.show_quit_confirm = false;
        },
        KeyCode::Char('c') => {
            if key.modifiers.control {
                app.play(SoundType::PopupClose);
                app.ui.show_quit_confirm = false;
            }
        },
        _ => {},
    }
}

/// A key of the server error popup: enter asks for a new connection and
/// closes it; control-`c` quits; other keys do nothing.
pub open spec fn server_error_key(o: App, n: App, key: KeyEvent) -> bool {
    match key.code {
        KeyCode::Enter => {
            &&& n == (App { ui: n.ui, effects: n.effects, ..o })
            &&& n.ui == (UiState {
                should_retry_connection: true,
                show_server_error: false,
                server_error_message: n.ui.server_error_message,
                ..o.ui
            })
            &&& n.ui.server_error_message@.len() == 0
            &&& queued(o, n, seq![Effect::Play(SoundType::PopupClose)])
        },
        KeyCode::Char('c') => if key.modifiers.control {
            n == (App { ui: UiState { should_quit: true, ..o.ui }, ..o })
        } else {
            n == o
        },
        _ => n == o,
    }
}

fn handle_server_error_input(key: KeyEvent, app: &mut App)
    ensures
        server_error_key(*old(app), *final(app), key),
{
    match key.code {
        KeyCode::Enter => {
            app.play(SoundType::PopupClose);
            app.ui.should_retry_connection = true;
            app.ui.hide_server_error();
        },
        KeyCode::Char('c') => {
            if key.modifiers.control {
                app.ui.quit();
            }
        },
        _ => {},
    }
}

/// The key is one of the shortcuts of the chat screen.
pub open spec fn is_global_shortcut(o: App, key: KeyEvent) -> bool {
    o.ui.mode == AppMode::Chat && (key.code == KeyCode::F(5) || key.code == KeyCode::F(6))
}

/// What a key does: the server error popup takes it first, then the quit
/// confirmation, then the shortcuts of the chat screen; a notification
/// shown is closed by any other key; otherwise the screen shown handles it.
pub open spec fn key_outcome(o: App, n: App, key: KeyEvent, pic_file: Option<Seq<u8>>, banner_file: Option<Seq<u8>>) -> bool {
    if o.ui.show_server_error {
        server_error_key(o, n, key)
    } else if o.ui.show_quit_confirm {
        quit_confirm_key(o, n, key)
    } else if is_global_shortcut(o, key) {
        navigation::global_shortcut(o, n, key, true)
    } else if o.notifications.current_notification is Some {
        n == (App { notifications: NotificationState { current_notification: None, ..o.notifications }, ..o })
    } else {
        match o.ui.mode {
            AppMode::Login | AppMode::Register => auth::auth_key(o, n, key),
            AppMode::Chat => chat::chat_key(o, n, key),
            AppMode::EditProfile => profile::profile_edit_key(o, n, key, pic_file, banner_file),
            AppMode::ForumList | AppMode::ThreadList | AppMode::PostView => forum::forum_key(o, n, key),
            AppMode::Input => navigation::input_mode_key(o, n, key),
            _ => navigation::general_navigation_key(o, n, key),
        }
    }
}

/// Handles a key (see `key_outcome`). `profile_pic_file` and
/// `cover_banner_file` are the contents of the files that the image fields
/// of the profile editor name, read when `profile::key_saves_profile` says
/// that the key saves the profile.
pub fn handle_key_event(key: KeyEvent, app: &mut App, profile_pic_file: Option<Vec<u8>>, cover_banner_file: Option<Vec<u8>>)
    requires
        old(app).ui.mode == AppMode::ColorPicker && key.code == KeyCode::Enter ==> old(app).ui.color_picker_selected < 16,
        chat::rows_ok(old(app).chat),
    ensures
        key_outcome(*old(app), *final(app), key, opt_bytes(profile_pic_file), opt_bytes(cover_banner_file)),
{
    if app.ui.show_server_error {
        handle_server_error_input(key, app);
        return;
    }
    if app.ui.show_quit_confirm {
        handle_quit_confirm_input(key, app);
        return;
    }
    if navigation::handle_global_shortcuts(key, app) {
        return;
    }
    if app.notifications.current_notification.is_some() {
        app.notifications.clear_notification();
        return;
    }
    match app.ui.mode {
        AppMode::Login | AppMode::Register => auth::handle_auth_input(key, app),
        AppMode::Chat => chat::handle_chat_input(key, app),
        AppMode::EditProfile => profile::handle_profile_edit_input(key, app, profile_pic_file, cover_banner_file),
        AppMode::ForumList | AppMode::ThreadList | AppMode::PostView => forum::handle_forum_input(key, app),
        AppMode::Input => navigation::handle_input_mode(key, app),
        _ => navigation::handle_general_navigation(key, app),
    }
}

} // verus!
