//! Keys of the login and register screens.

use vstd::prelude::*;
use crate::app::{App, Effect, queued, shows};
use crate::input::{KeyCode, KeyEvent};
use crate::model::ClientMessage;
use crate::sound::SoundType;
use crate::state::auth::{AuthState, InputMode};
use crate::state::ui::{AppMode, UiState};
use crate::text::{pop_char, push_char};

verus! {

/// The order in which tab moves the focus over the form.
pub open spec fn focus_order(is_login: bool) -> Seq<InputMode> {
    if is_login {
        seq![InputMode::LoginUsername, InputMode::LoginPassword, InputMode::AuthSubmit, InputMode::AuthSwitch]
    } else {
        seq![InputMode::RegisterUsername, InputMode::RegisterPassword, InputMode::AuthSubmit, InputMode::AuthSwitch]
    }
}

/// The position of the focused field in the order, or 0.
pub open spec fn focus_pos(is_login: bool, m: Option<InputMode>) -> int {
    match m {
        Some(x) => if focus_order(is_login)[0] == x {
            0
        } else if focus_order(is_login)[1] == x {
            1
        } else if focus_order(is_login)[2] == x {
            2
        } else if focus_order(is_login)[3] == x {
            3
        } else {
            0
        },
        None => 0,
    }
}

fn focus_at(is_login: bool, i: usize) -> (m: InputMode)
    requires
        i < 4,
    ensures
        m == focus_order(is_login)[i as int],
{
    match i {
        0 => if is_login { InputMode::LoginUsername } else { InputMode::RegisterUsername },
        1 => if is_login { InputMode::LoginPassword } else { InputMode::RegisterPassword },
        2 => InputMode::AuthSubmit,
        _ => InputMode::AuthSwitch,
    }
}

fn focus_index(is_login: bool, m: Option<InputMode>) -> (r: usize)
    ensures
        r == focus_pos(is_login, m),
        r < 4,
{
    match m {
        Some(x) => {
            if focus_at(is_login, 0) == x {
                0
            } else if focus_at(is_login, 1) == x {
                1
            } else if focus_at(is_login, 2) == x {
                2
            } else if focus_at(is_login, 3) == x {
                3
            } else {
                0
            }
        },
        None => 0,
    }
}

/// The field that typed characters go to: the name (`Some(true)`), the
/// password (`Some(false)`), or none.
pub open spec fn typing_target(m: Option<InputMode>) -> Option<bool> {
    match m {
        Some(InputMode::LoginUsername) | Some(InputMode::RegisterUsername) => Some(true),
        Some(InputMode::LoginPassword) | Some(InputMode::RegisterPassword) => Some(false),
        _ => None,
    }
}

/// The login form's fields after `f` is applied to the focused field.
pub open spec fn field_edited(o: App, n: App, f: spec_fn(Seq<char>) -> Seq<char>) -> bool {
    match typing_target(o.auth.input_mode) {
        Some(true) => n == (App { auth: AuthState { current_input: n.auth.current_input, ..o.auth }, ..o })
            && n.auth.current_input@ == f(o.auth.current_input@),
        Some(false) => n == (App { auth: AuthState { password_input: n.auth.password_input, ..o.auth }, ..o })
            && n.auth.password_input@ == f(o.auth.password_input@),
        None => n == o,
    }
}

/// A key on the login or register screen: characters and backspace edit
/// the focused field; tab and back-tab move the focus; enter moves from
/// the name to the password to the submit button, submits (refusing empty
/// fields with a notification and the failure sound, else sending the
/// login or registration and emptying the fields), or switches between
/// the two screens; escape quits.
pub open spec fn auth_key(o: App, n: App, key: KeyEvent) -> bool {
    let is_login = o.ui.mode == AppMode::Login;
    match key.code {
        KeyCode::Char(c) => field_edited(o, n, |s: Seq<char>| s.push(c)),
        KeyCode::Backspace => field_edited(o, n, |s: Seq<char>| if s.len() > 0 { s.drop_last() } else { s }),
        KeyCode::Tab => n == (App {
            auth: AuthState { input_mode: Some(focus_order(is_login)[(focus_pos(is_login, o.auth.input_mode) + 1) % 4]), ..o.auth },
            ..o
        }),
        KeyCode::BackTab => n == (App {
            auth: AuthState { input_mode: Some(focus_order(is_login)[(focus_pos(is_login, o.auth.input_mode) + 3) % 4]), ..o.auth },
            ..o
        }),
        KeyCode::Enter => match o.auth.input_mode {
            Some(InputMode::LoginUsername) => n == (App { auth: AuthState { input_mode: Some(InputMode::LoginPassword), ..o.auth }, ..o }),
            Some(InputMode::LoginPassword) => n == (App { auth: AuthState { input_mode: Some(InputMode::AuthSubmit), ..o.auth }, ..o }),
            Some(InputMode::RegisterUsername) => n == (App { auth: AuthState { input_mode: Some(InputMode::RegisterPassword), ..o.auth }, ..o }),
            Some(InputMode::RegisterPassword) => n == (App { auth: AuthState { input_mode: Some(InputMode::AuthSubmit), ..o.auth }, ..o }),
            Some(InputMode::AuthSubmit) => if o.auth.current_input@.len() == 0 || o.auth.password_input@.len() == 0 {
                &&& n == (App { notifications: n.notifications, effects: n.effects, ..o })
                &&& shows(o.notifications, n.notifications, "Fields cannot be empty."@, None, false, o.ui.tick_count)
                &&& queued(o, n, seq![Effect::Play(SoundType::LoginFailure)])
            } else {
                &&& n == (App { auth: n.auth, effects: n.effects, ..o })
                &&& n.auth.current_user == o.auth.current_user && n.auth.input_mode == o.auth.input_mode
                &&& n.auth.current_input@.len() == 0 && n.auth.password_input@.len() == 0
                &&& n.effects@.len() == o.effects@.len() + 1 && n.effects@.drop_last() == o.effects@
                &&& if is_login {
                    n.effects@.last() matches Effect::Send(ClientMessage::Login { username, password })
                        && username@ == o.auth.current_input@ && password@ == o.auth.password_input@
                } else {
                    n.effects@.last() matches Effect::Send(ClientMessage::Register { username, password })
                        && username@ == o.auth.current_input@ && password@ == o.auth.password_input@
                }
            },
            Some(InputMode::AuthSwitch) => {
                &&& n == (App { auth: n.auth, ui: UiState { mode: if is_login { AppMode::Register } else { AppMode::Login }, ..o.ui }, ..o })
                &&& n.auth.current_user == o.auth.current_user
                &&& n.auth.input_mode == Some(if is_login { InputMode::RegisterUsername } else { InputMode::LoginUsername })
                &&& n.auth.current_input@.len() == 0 && n.auth.password_input@.len() == 0
            },
            _ => n == o,
        },
        KeyCode::Esc => n == (App { ui: UiState { should_quit: true, ..o.ui }, ..o }),
        _ => n == o,
    }
}

/// Handles a key of the login and register screens (see `auth_key`).
pub fn handle_auth_input(key: KeyEvent, app: &mut App)
    ensures
        auth_key(*old(app), *final(app), key),
{
    let is_login = app.ui.mode == AppMode::Login;
    match key.code {
        KeyCode::Char(c) => match app.auth.input_mode {
            Some(InputMode::LoginUsername) | Some(InputMode::RegisterUsername) => push_char(&mut app.auth.current_input, c),
            Some(InputMode::LoginPassword) | Some(InputMode::RegisterPassword) => push_char(&mut app.auth.password_input, c),
            _ => {},
        },
        KeyCode::Backspace => match app.auth.input_mode {
            Some(InputMode::LoginUsername) | Some(InputMode::RegisterUsername) => pop_char(&mut app.auth.current_input),
            Some(InputMode::LoginPassword) | Some(InputMode::RegisterPassword) => pop_char(&mut app.auth.password_input),
            _ => {},
        },
        KeyCode::Tab => {
            let i = focus_index(is_login, app.auth.input_mode);
            app.auth.input_mode = Some(focus_at(is_login, (i + 1) % 4));
        },
        KeyCode::BackTab => {
            let i = focus_index(is_login, app.auth.input_mode);
            app.auth.input_mode = Some(focus_at(is_login, (i + 3) % 4));
        },
        KeyCode::Enter => match app.auth.input_mode {
            Some(InputMode::LoginUsername) => app.auth.input_mode = Some(InputMode::LoginPassword),
            Some(InputMode::LoginPassword) => app.auth.input_mode = Some(InputMode::AuthSubmit),
            Some(InputMode::RegisterUsername) => app.auth.input_mode = Some(InputMode::RegisterPassword),
            Some(InputMode::RegisterPassword) => app.auth.input_mode = Some(InputMode::AuthSubmit),
            Some(InputMode::AuthSubmit) => {
                let username = app.auth.current_input.clone();
                let password = app.auth.password_input.clone();
                if username.as_str().is_empty() || password.as_str().is_empty() {
                    app.set_notification("Fields cannot be empty.".to_string(), None, false);
                    app.play(SoundType::LoginFailure);
                    return;
                }
                let ghost e0 = app.effects@;
                if is_login {
                    app.send_to_server(ClientMessage::Login { username, password });
                } else {
                    app.send_to_server(ClientMessage::Register { username, password });
                }
                app.auth.clear_inputs();
                assert(app.effects@.drop_last() =~= e0);
            },
            Some(InputMode::AuthSwitch) => {
                app.auth.clear_inputs();
                if is_login {
                    app.ui.set_mode(AppMode::Register);
                    app.auth.input_mode = Some(InputMode::RegisterUsername);
                } else {
                    app.ui.set_mode(AppMode::Login);
                    app.auth.input_mode = Some(InputMode::LoginUsername);
                }
            },
            _ => {},
        },
        KeyCode::Esc => app.ui.quit(),
        _ => {},
    }
}

} // verus!
