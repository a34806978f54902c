//! Keys of the menus, the settings, the colour picker, the parameters and
//! the popup inputs, and the shortcuts that work everywhere.

use vstd::prelude::*;
use crate::app::{App, Effect, queued, shows};
use crate::input::{KeyCode, KeyEvent};
use crate::model::{ClientMessage, Color};
use crate::prefs::{GlobalPrefs, global_prefs_mut};
use crate::sound::SoundType;
use crate::state::auth::{AuthState, InputMode};
use crate::state::forum::ForumState;
use crate::state::profile::{ProfileEditFocus, ProfileState};
use crate::state::ui::{AppMode, UiState};
use crate::state::ListSelection;
use crate::text::{chars_of, pop_char, push_char, trim, trim_chars};

verus! {

/// The colours a user can pick, in the order of the picker.
pub open spec fn palette() -> Seq<Color> {
    seq![
        Color::Cyan, Color::Green, Color::Yellow, Color::Red, Color::Magenta, Color::Blue, Color::White,
        Color::LightCyan, Color::LightGreen, Color::LightYellow, Color::LightRed, Color::LightMagenta,
        Color::LightBlue, Color::Gray, Color::DarkGray, Color::Black,
    ]
}

/// The first position of the colour in the palette.
pub open spec fn palette_pos(c: Color) -> Option<int> {
    if exists|i: int| 0 <= i < 16 && #[trigger] palette()[i] == c {
        Some(choose|i: int| 0 <= i < 16 && #[trigger] palette()[i] == c && forall|j: int| 0 <= j < i ==> palette()[j] != c)
    } else {
        None
    }
}

fn palette_at(i: usize) -> (c: Color)
    requires
        i < 16,
    ensures
        c == palette()[i as int],
{
    match i {
        0 => Color::Cyan,
        1 => Color::Green,
        2 => Color::Yellow,
        3 => Color::Red,
        4 => Color::Magenta,
        5 => Color::Blue,
        6 => Color::White,
        7 => Color::LightCyan,
        8 => Color::LightGreen,
        9 => Color::LightYellow,
        10 => Color::LightRed,
        11 => Color::LightMagenta,
        12 => Color::LightBlue,
        13 => Color::Gray,
        14 => Color::DarkGray,
        _ => Color::Black,
    }
}

fn palette_index(c: Color) -> (r: Option<usize>)
    ensures
        r matches Some(i) ==> palette_pos(c) == Some(i as int),
        r is None ==> palette_pos(c) is None,
{
    let mut i: usize = 0;
    while i < 16
        invariant
            i <= 16,
            forall|j: int| 0 <= j < i ==> palette()[j] != c,
        decreases 16 - i,
    {
        if palette_at(i) == c {
            assert(palette()[i as int] == c);
            let ghost k = choose|k: int| 0 <= k < 16 && #[trigger] palette()[k] == c && forall|j: int| 0 <= j < k ==> palette()[j] != c;
            assert(k == i) by {
                if k < i {
                    assert(palette()[k] != c);
                } else if k > i {
                    assert(palette()[i as int] != c);
                }
            }
            return Some(i);
        }
        i = i + 1;
    }
    None
}

/// `(a + 1) % n` without overflow.
pub fn next_index(a: usize, n: usize) -> (r: usize)
    requires
        n > 0,
    ensures
        r == (a + 1) % (n as int),
{
    let m = a % n;
    proof {
        let ai = a as int;
        let ni = n as int;
        assert(ai == (ai / ni) * ni + m && 0 <= m < ni) by (nonlinear_arith)
            requires ni > 0, ai >= 0, m == ai % ni;
        assert((ai + 1) % ni == (if m + 1 == ni { 0 } else { m + 1 })) by (nonlinear_arith)
            requires ni > 0, ai >= 0, 0 <= m < ni, ai == (ai / ni) * ni + m;
    }
    if m + 1 == n { 0 } else { m + 1 }
}

/// `(a + n - 1) % n` without overflow.
pub fn prev_index(a: usize, n: usize) -> (r: usize)
    requires
        n > 0,
    ensures
        r == (a + n - 1) % (n as int),
{
    let m = a % n;
    proof {
        let ai = a as int;
        let ni = n as int;
        assert(ai == (ai / ni) * ni + m && 0 <= m < ni) by (nonlinear_arith)
            requires ni > 0, ai >= 0, m == ai % ni;
        assert((ai + ni - 1) % ni == (if m == 0 { ni - 1 } else { m - 1 })) by (nonlinear_arith)
            requires ni > 0, ai >= 0, 0 <= m < ni, ai == (ai / ni) * ni + m;
    }
    if m == 0 { n - 1 } else { m - 1 }
}

/// The selected row of a list, or the first.
pub open spec fn sel(l: ListSelection) -> int {
    match l.selected {
        Some(s) => s as int,
        None => 0,
    }
}

/// What the F5 and F6 shortcuts do on the chat screen: F5 opens the server
/// actions, F6 asks for the notifications; `true` when the key was used.
pub open spec fn global_shortcut(o: App, n: App, key: KeyEvent, used: bool) -> bool {
    if o.ui.mode == AppMode::Chat && key.code == KeyCode::F(5) {
        &&& used
        &&& n == (App { ui: UiState { show_server_actions: true, ..o.ui }, effects: n.effects, ..o })
        &&& queued(o, n, seq![Effect::Play(SoundType::PopupOpen)])
    } else if o.ui.mode == AppMode::Chat && key.code == KeyCode::F(6) {
        &&& used
        &&& n == (App { notifications: n.notifications, effects: n.effects, ..o })
        &&& shows(o.notifications, n.notifications, "Refreshing notifications..."@, Some(500), true, o.ui.tick_count)
        &&& queued(o, n, seq![Effect::Send(ClientMessage::GetNotifications { before: None })])
    } else {
        !used && n == o
    }
}

/// Handles F5 and F6 (see `global_shortcut`).
pub fn handle_global_shortcuts(key: KeyEvent, app: &mut App) -> (used: bool)
    ensures
        global_shortcut(*old(app), *final(app), key, used),
{
    if app.ui.mode == AppMode::Chat {
        match key.code {
            KeyCode::F(5) => {
                app.ui.show_server_actions = true;
                app.play(SoundType::PopupOpen);
                return true;
            },
            KeyCode::F(6) => {
                app.set_notification("Refreshing notifications...".to_string(), Some(500), true);
                app.send_to_server(ClientMessage::GetNotifications { before: None });
                return true;
            },
            _ => {},
        }
    }
    false
}

/// The main menu: up and down move over its four entries (with the scroll
/// sound); enter opens the forums, the chat, the settings, or logs out.
pub open spec fn main_menu_key(o: App, n: App, key: KeyEvent) -> bool {
    match key.code {
        KeyCode::Down => n == (App {
            ui: UiState { main_menu_state: ListSelection { selected: Some(((sel(o.ui.main_menu_state) + 1) % 4) as usize) }, ..o.ui },
            effects: n.effects,
            ..o
        }) && queued(o, n, seq![Effect::Play(SoundType::Scroll)]),
        KeyCode::Up => n == (App {
            ui: UiState { main_menu_state: ListSelection { selected: Some(((sel(o.ui.main_menu_state) + 3) % 4) as usize) }, ..o.ui },
            effects: n.effects,
            ..o
        }) && queued(o, n, seq![Effect::Play(SoundType::Scroll)]),
        KeyCode::Enter => match o.ui.main_menu_state.selected {
            Some(0) => n == (App {
                ui: UiState { mode: AppMode::ForumList, ..o.ui },
                forum: ForumState { forum_list_state: ListSelection { selected: Some(0) }, ..o.forum },
                effects: n.effects,
                ..o
            }) && queued(o, n, seq![Effect::Send(ClientMessage::GetForums)]),
            Some(1) => {
                &&& n == (App {
                    ui: UiState { mode: AppMode::Chat, ..o.ui },
                    auth: AuthState { current_input: n.auth.current_input, ..o.auth },
                    effects: n.effects,
                    ..o
                })
                &&& n.auth.current_input@.len() == 0
                &&& queued(o, n, seq![Effect::Send(ClientMessage::GetServers), Effect::Send(ClientMessage::GetDMUserList)])
            },
            Some(2) => n == (App {
                ui: UiState { mode: AppMode::Settings, settings_list_state: ListSelection { selected: Some(0) }, ..o.ui },
                ..o
            }),
            Some(3) => {
                &&& n == (App { ui: UiState { mode: AppMode::Login, ..o.ui }, auth: n.auth, effects: n.effects, ..o })
                &&& n.auth.current_user is None
                &&& n.auth.current_input@.len() == 0 && n.auth.password_input@.len() == 0
                &&& n.auth.input_mode == Some(InputMode::LoginUsername)
                &&& queued(o, n, seq![Effect::Send(ClientMessage::Logout)])
            },
            _ => n == o,
        },
        _ => n == o,
    }
}

fn handle_main_menu_input(key: KeyEvent, app: &mut App)
    ensures
        main_menu_key(*old(app), *final(app), key),
{
    match key.code {
        KeyCode::Down => {
            app.play(SoundType::Scroll);
            let current = match app.ui.main_menu_state.selected() { Some(c) => c, None => 0 };
            app.ui.main_menu_state.select(Some(next_index(current, 4)));
        },
        KeyCode::Up => {
            app.play(SoundType::Scroll);
            let current = match app.ui.main_menu_state.selected() { Some(c) => c, None => 0 };
            app.ui.main_menu_state.select(Some(prev_index(current, 4)));
        },
        KeyCode::Enter => {
            match app.ui.main_menu_state.selected() {
                Some(0) => {
                    app.send_to_server(ClientMessage::GetForums);
                    app.ui.set_mode(AppMode::ForumList);
                    app.forum.forum_list_state.select(Some(0));
                },
                Some(1) => {
                    app.ui.set_mode(AppMode::Chat);
                    app.auth.current_input = String::new();
                    let ghost e0 = app.effects@;
                    app.send_to_server(ClientMessage::GetServers);
                    app.send_to_server(ClientMessage::GetDMUserList);
                    assert(app.effects@ =~= e0 + seq![Effect::Send(ClientMessage::GetServers), Effect::Send(ClientMessage::GetDMUserList)]);
                },
                Some(2) => {
                    app.ui.set_mode(AppMode::Settings);
                    app.ui.settings_list_state.select(Some(0));
                },
                Some(3) => {
                    app.send_to_server(ClientMessage::Logout);
                    app.auth.logout();
                    app.ui.set_mode(AppMode::Login);
                    app.auth.clear_inputs();
                },
                _ => {},
            }
        },
        _ => {},
    }
}

/// The number of settings entries: four when logged in, else three.
pub open spec fn settings_count(o: App) -> int {
    if o.auth.current_user is Some { 4 } else { 3 }
}

/// The settings list: up and down move over its entries; enter changes the
/// password, opens the colour picker on the user's colour, asks for the
/// profile and opens the editor, or opens the parameters; `p` opens the
/// parameters; escape goes back to the main menu.
pub open spec fn settings_key(o: App, n: App, key: KeyEvent) -> bool {
    let m = settings_count(o);
    match key.code {
        KeyCode::Down => n == (App {
            ui: UiState { settings_list_state: ListSelection { selected: Some(((sel(o.ui.settings_list_state) + 1) % m) as usize) }, ..o.ui },
            effects: n.effects,
            ..o
        }) && queued(o, n, seq![Effect::Play(SoundType::Scroll)]),
        KeyCode::Up => n == (App {
            ui: UiState { settings_list_state: ListSelection { selected: Some(((sel(o.ui.settings_list_state) + m - 1) % m) as usize) }, ..o.ui },
            effects: n.effects,
            ..o
        }) && queued(o, n, seq![Effect::Play(SoundType::Scroll)]),
        KeyCode::Enter => match o.ui.settings_list_state.selected {
            Some(0) => {
                &&& n == (App { auth: n.auth, ui: UiState { mode: AppMode::Input, ..o.ui }, notifications: n.notifications, ..o })
                &&& n.auth.current_user == o.auth.current_user
                &&& n.auth.input_mode == Some(InputMode::UpdatePassword)
                &&& n.auth.current_input@.len() == 0 && n.auth.password_input@.len() == 0
                &&& n.notifications.current_notification is None
                &&& n.notifications.notifications == o.notifications.notifications
                &&& n.notifications.notification_history_complete == o.notifications.notification_history_complete
            },
            Some(1) => n == (App {
                ui: UiState {
                    mode: AppMode::ColorPicker,
                    color_picker_selected: match o.auth.current_user {
                        Some(u) => match palette_pos(u.color) { Some(i) => i as usize, None => 0 },
                        None => 0,
                    },
                    ..o.ui
                },
                ..o
            }),
            Some(2) => match o.auth.current_user {
                Some(u) => n == (App {
                    profile: ProfileState { profile_requested_by_user: false, profile_edit_focus: ProfileEditFocus::Bio, ..o.profile },
                    ui: UiState { mode: AppMode::EditProfile, ..o.ui },
                    effects: n.effects,
                    ..o
                }) && queued(o, n, seq![Effect::Send(ClientMessage::GetProfile { user_id: u.id })]),
                None => n == o,
            },
            Some(3) => n == (App { ui: UiState { mode: AppMode::Parameters, ..o.ui }, ..o }),
            _ => n == o,
        },
        KeyCode::Esc => n == (App { ui: UiState { mode: AppMode::MainMenu, ..o.ui }, ..o }),
        KeyCode::Char('p') => n == (App { ui: UiState { mode: AppMode::Parameters, ..o.ui }, ..o }),
        _ => n == o,
    }
}

#[verifier::rlimit(50)]
fn handle_settings_input(key: KeyEvent, app: &mut App)
    ensures
        settings_key(*old(app), *final(app), key),
{
    match key.code {
        KeyCode::Down => {
            app.play(SoundType::Scroll);
            let max: usize = if app.auth.is_logged_in() { 4 } else { 3 };
            let current = match app.ui.settings_list_state.selected() { Some(c) => c, None => 0 };
            app.ui.settings_list_state.select(Some(next_index(current, max)));
        },
        KeyCode::Up => {
            app.play(SoundType::Scroll);
            let max: usize = if app.auth.is_logged_in() { 4 } else { 3 };
            let current = match app.ui.settings_list_state.selected() { Some(c) => c, None => 0 };
            app.ui.settings_list_state.select(Some(prev_index(current, max)));
        },
        KeyCode::Enter => {
            match app.ui.settings_list_state.selected() {
                Some(0) => app.enter_input_mode(InputMode::UpdatePassword),
                Some(1) => {
                    let idx = match &app.auth.current_user {
                        Some(user) => match palette_index(user.color) {
                            Some(i) => i,
                            None => 0,
                        },
                        None => 0,
                    };
                    app.ui.color_picker_selected = idx;
                    app.ui.set_mode(AppMode::ColorPicker);
                },
                Some(2) => {
                    let uid = match &app.auth.current_user {
                        Some(user) => Some(user.id),
                        None => None,
                    };
                    match uid {
                        Some(id) => {
                            app.profile.profile_requested_by_user = false;
                            app.send_to_server(ClientMessage::GetProfile { user_id: id });
                            app.profile.profile_edit_focus = ProfileEditFocus::Bio;
                            app.ui.set_mode(AppMode::EditProfile);
                        },
                        None => {},
                    }
                },
                Some(3) => app.ui.set_mode(AppMode::Parameters),
                _ => {},
            }
        },
        KeyCode::Esc => app.ui.set_mode(AppMode::MainMenu),
        KeyCode::Char('p') => app.ui.set_mode(AppMode::Parameters),
        _ => {},
    }
}

/// The colour picker: left and right move over the sixteen colours
/// (wrapping); enter gives the current user the colour, tells the server
/// and plays the save sound, then goes back to the settings; escape goes
/// back.
pub open spec fn color_picker_key(o: App, n: App, key: KeyEvent) -> bool {
    let s = o.ui.color_picker_selected;
    match key.code {
        KeyCode::Left => n == (App {
            ui: UiState { color_picker_selected: if s == 0 { 15 } else { (s - 1) as usize }, ..o.ui },
            ..o
        }),
        KeyCode::Right => n == (App { ui: UiState { color_picker_selected: ((s + 1) % 16) as usize, ..o.ui }, ..o }),
        KeyCode::Enter => match o.auth.current_user {
            Some(u) => n == (App {
                auth: AuthState { current_user: Some(crate::model::User { color: palette()[s as int], ..u }), ..o.auth },
                ui: UiState { mode: AppMode::Settings, ..o.ui },
                effects: n.effects,
                ..o
            }) && queued(o, n, seq![
                Effect::Send(ClientMessage::UpdateColor(palette()[s as int])),
                Effect::Play(SoundType::Save),
            ]),
            None => n == (App { ui: UiState { mode: AppMode::Settings, ..o.ui }, ..o }),
        },
        KeyCode::Esc => n == (App { ui: UiState { mode: AppMode::Settings, ..o.ui }, ..o }),
        _ => n == o,
    }
}

fn handle_color_picker_input(key: KeyEvent, app: &mut App)
    requires
        old(app).ui.color_picker_selected < 16 || key.code != KeyCode::Enter,
    ensures
        color_picker_key(*old(app), *final(app), key),
{
    match key.code {
        KeyCode::Left => {
            if app.ui.color_picker_selected == 0 {
                app.ui.color_picker_selected = 15;
            } else {
                app.ui.color_picker_selected = app.ui.color_picker_selected - 1;
            }
        },
        KeyCode::Right => {
            app.ui.color_picker_selected = next_index(app.ui.color_picker_selected, 16);
        },
        KeyCode::Enter => {
            let new_color = palette_at(app.ui.color_picker_selected);
            let has_user = app.auth.current_user.is_some();
            if has_user {
                let mut user = app.auth.current_user.as_ref().unwrap().duplicate();
                user.color = new_color;
                app.auth.current_user = Some(user);
                let ghost e0 = app.effects@;
                app.send_to_server(ClientMessage::UpdateColor(new_color));
                app.play(SoundType::Save);
                assert(app.effects@ =~= e0 + seq![Effect::Send(ClientMessage::UpdateColor(new_color)), Effect::Play(SoundType::Save)]);
            }
            app.ui.set_mode(AppMode::Settings);
        },
        KeyCode::Esc => app.ui.set_mode(AppMode::Settings),
        _ => {},
    }
}

/// The parameters screen: space or enter switches the sound effects and
/// saves the preferences (when they are loaded); escape goes back to the
/// settings, or to the login or register screen when logged out.
pub open spec fn parameters_key(o: App, n: App, key: KeyEvent) -> bool {
    match key.code {
        KeyCode::Char(' ') | KeyCode::Enter => match o.prefs.value {
            Some(p) => n == (App {
                prefs: crate::prefs::GlobalPrefsCell {
                    value: Some(GlobalPrefs { sound_effects_enabled: !p.sound_effects_enabled, ..p }),
                },
                effects: n.effects,
                ..o
            }) && queued(o, n, seq![Effect::SavePrefs]),
            None => n == o,
        },
        KeyCode::Esc => n == (App {
            ui: UiState {
                mode: if o.auth.current_user is Some {
                    AppMode::Settings
                } else if o.auth.input_mode == Some(InputMode::RegisterUsername)
                    || o.auth.input_mode == Some(InputMode::RegisterPassword) {
                    AppMode::Register
                } else {
                    AppMode::Login
                },
                ..o.ui
            },
            ..o
        }),
        _ => n == o,
    }
}

fn handle_parameters_input(key: KeyEvent, app: &mut App)
    ensures
        parameters_key(*old(app), *final(app), key),
{
    match key.code {
        KeyCode::Char(' ') | KeyCode::Enter => {
            if app.prefs.is_initialized() {
                let prefs = global_prefs_mut(&mut app.prefs);
                prefs.sound_effects_enabled = !prefs.sound_effects_enabled;
                app.effects.push(Effect::SavePrefs);
                assert(app.effects@ =~= old(app).effects@ + seq![Effect::SavePrefs]);
            }
        },
        KeyCode::Esc => {
            if app.auth.is_logged_in() {
                app.ui.set_mode(AppMode::Settings);
            } else {
                let is_register = match app.auth.input_mode {
                    Some(InputMode::RegisterUsername) => true,
                    Some(InputMode::RegisterPassword) => true,
                    _ => false,
                };
                app.ui.set_mode(if is_register { AppMode::Register } else { AppMode::Login });
            }
        },
        _ => {},
    }
}

/// Dispatches the keys of the main menu, settings, colour picker and
/// parameters screens; other screens ignore them here.
pub open spec fn general_navigation_key(o: App, n: App, key: KeyEvent) -> bool {
    match o.ui.mode {
        AppMode::MainMenu => main_menu_key(o, n, key),
        AppMode::Settings => settings_key(o, n, key),
        AppMode::ColorPicker => color_picker_key(o, n, key),
        AppMode::Parameters => parameters_key(o, n, key),
        _ => n == o,
    }
}

/// Handles a key of the menus (see `general_navigation_key`).
pub fn handle_general_navigation(key: KeyEvent, app: &mut App)
    requires
        old(app).ui.mode == AppMode::ColorPicker && key.code == KeyCode::Enter ==> old(app).ui.color_picker_selected < 16,
    ensures
        general_navigation_key(*old(app), *final(app), key),
{
    match app.ui.mode {
        AppMode::MainMenu => handle_main_menu_input(key, app),
        AppMode::Settings => handle_settings_input(key, app),
        AppMode::ColorPicker => handle_color_picker_input(key, app),
        AppMode::Parameters => handle_parameters_input(key, app),
        _ => {},
    }
}


/// The login state after a popup input: the user kept, the input mode,
/// and the two fields.
pub open spec fn auth_is(o: AuthState, n: AuthState, mode: Option<InputMode>, cur: Seq<char>, pw: Seq<char>) -> bool {
    n.current_user == o.current_user && n.input_mode == mode && n.current_input@ == cur && n.password_input@ == pw
}

/// The notification is closed, the history kept.
pub open spec fn notification_closed(o: crate::state::notification::NotificationState, n: crate::state::notification::NotificationState) -> bool {
    n.current_notification is None && n.notifications == o.notifications
        && n.notification_history_complete == o.notification_history_complete
}

/// `n` ends with the effects `o`, the popup sound, a message matching
/// `m` and nothing else.
pub open spec fn popup_then_send(o: Seq<Effect>, n: Seq<Effect>, m: spec_fn(ClientMessage) -> bool) -> bool {
    n.len() == o.len() + 2 && n.take(o.len() as int) == o && n[o.len() as int] == Effect::Play(SoundType::PopupOpen)
        && (n.last() matches Effect::Send(c) && m(c))
}

/// Enter in a popup input. The text typed (and, for the second step of a
/// form, the text of the first step, kept in the password field) is
/// checked: a required text that is blank shows why and restarts the form;
/// otherwise the next step opens, or the forum, thread, post or password
/// is sent with a notification and the screen it belongs to is shown. The
/// popup sound plays in each case but the unknown ones.
pub open spec fn input_submitted(o: App, n: App) -> bool {
    let input = o.auth.current_input@;
    let prev = o.auth.password_input@;
    let tick = o.ui.tick_count;
    match o.auth.input_mode {
        None => n == (App { auth: n.auth, ..o }) && auth_is(o.auth, n.auth, None, Seq::empty(), Seq::empty()),
        Some(InputMode::NewForumName) => if trim(input).len() == 0 {
            &&& n == (App { auth: n.auth, notifications: n.notifications, effects: n.effects, ..o })
            &&& auth_is(o.auth, n.auth, Some(InputMode::NewForumName), Seq::empty(), Seq::empty())
            &&& shows(o.notifications, n.notifications, "Forum name cannot be empty."@, None, false, tick)
            &&& queued(o, n, seq![Effect::Play(SoundType::PopupOpen)])
        } else {
            &&& n == (App { auth: n.auth, ui: UiState { mode: AppMode::Input, ..o.ui }, notifications: n.notifications, effects: n.effects, ..o })
            &&& auth_is(o.auth, n.auth, Some(InputMode::NewForumDescription), Seq::empty(), input)
            &&& notification_closed(o.notifications, n.notifications)
            &&& queued(o, n, seq![Effect::Play(SoundType::PopupOpen)])
        },
        Some(InputMode::NewForumDescription) => if trim(prev).len() == 0 || trim(input).len() == 0 {
            &&& n == (App { auth: n.auth, notifications: n.notifications, effects: n.effects, ..o })
            &&& auth_is(o.auth, n.auth, Some(InputMode::NewForumName), Seq::empty(), prev)
            &&& shows(o.notifications, n.notifications, "Forum name and description cannot be empty."@, None, false, tick)
            &&& queued(o, n, seq![Effect::Play(SoundType::PopupOpen)])
        } else {
            &&& n == (App { auth: n.auth, ui: UiState { mode: AppMode::ForumList, ..o.ui }, notifications: n.notifications, effects: n.effects, ..o })
            &&& auth_is(o.auth, n.auth, None, Seq::empty(), Seq::empty())
            &&& shows(o.notifications, n.notifications, "Forum creation requested!"@, Some(1500), false, tick)
            &&& popup_then_send(o.effects@, n.effects@, |c: ClientMessage|
                c matches ClientMessage::CreateForum { name, description } && name@ == prev && description@ == input)
        },
        Some(InputMode::NewThreadTitle) => if trim(input).len() == 0 {
            &&& n == (App { auth: n.auth, notifications: n.notifications, effects: n.effects, ..o })
            &&& auth_is(o.auth, n.auth, Some(InputMode::NewThreadTitle), Seq::empty(), Seq::empty())
            &&& shows(o.notifications, n.notifications, "Thread title cannot be empty."@, None, false, tick)
            &&& queued(o, n, seq![Effect::Play(SoundType::PopupOpen)])
        } else {
            &&& n == (App { auth: n.auth, ui: UiState { mode: AppMode::Input, ..o.ui }, notifications: n.notifications, effects: n.effects, ..o })
            &&& auth_is(o.auth, n.auth, Some(InputMode::NewThreadContent), Seq::empty(), input)
            &&& notification_closed(o.notifications, n.notifications)
            &&& queued(o, n, seq![Effect::Play(SoundType::PopupOpen)])
        },
        Some(InputMode::NewThreadContent) => if trim(prev).len() == 0 || trim(input).len() == 0 {
            &&& n == (App { auth: n.auth, notifications: n.notifications, effects: n.effects, ..o })
            &&& auth_is(o.auth, n.auth, Some(InputMode::NewThreadTitle), Seq::empty(), prev)
            &&& shows(o.notifications, n.notifications, "Thread title and content cannot be empty."@, None, false, tick)
            &&& queued(o, n, seq![Effect::Play(SoundType::PopupOpen)])
        } else {
            &&& auth_is(o.auth, n.auth, None, Seq::empty(), Seq::empty())
            &&& match o.forum.current_forum_id {
                Some(fid) => {
                    &&& n == (App {
                        auth: n.auth,
                        ui: UiState { mode: AppMode::ThreadList, ..o.ui },
                        forum: ForumState { pending_new_thread_title: n.forum.pending_new_thread_title, ..o.forum },
                        notifications: n.notifications,
                        effects: n.effects,
                        ..o
                    })
                    &&& crate::app::opt_text(n.forum.pending_new_thread_title) == Some(prev)
                    &&& shows(o.notifications, n.notifications, "Thread submitted!"@, Some(1500), false, tick)
                    &&& popup_then_send(o.effects@, n.effects@, |c: ClientMessage|
                        c matches ClientMessage::CreateThread { forum_id, title, content }
                            && forum_id == fid && title@ == prev && content@ == input)
                },
                None => {
                    &&& n == (App { auth: n.auth, ui: UiState { mode: AppMode::ThreadList, ..o.ui }, effects: n.effects, ..o })
                    &&& queued(o, n, seq![Effect::Play(SoundType::PopupOpen)])
                },
            }
        },
        Some(InputMode::NewPostContent) => if trim(input).len() == 0 {
            &&& n == (App { auth: n.auth, notifications: n.notifications, effects: n.effects, ..o })
            &&& auth_is(o.auth, n.auth, Some(InputMode::NewPostContent), Seq::empty(), Seq::empty())
            &&& shows(o.notifications, n.notifications, "Post content cannot be empty."@, None, false, tick)
            &&& queued(o, n, seq![Effect::Play(SoundType::PopupOpen)])
        } else {
            &&& auth_is(o.auth, n.auth, None, Seq::empty(), Seq::empty())
            &&& match o.forum.current_thread_id {
                Some(tid) => {
                    &&& n == (App { auth: n.auth, ui: UiState { mode: AppMode::PostView, ..o.ui }, notifications: n.notifications, effects: n.effects, ..o })
                    &&& shows(o.notifications, n.notifications, "Reply submitted!"@, Some(1500), false, tick)
                    &&& popup_then_send(o.effects@, n.effects@, |c: ClientMessage|
                        c matches ClientMessage::CreatePost { thread_id, content } && thread_id == tid && content@ == input)
                },
                None => {
                    &&& n == (App { auth: n.auth, ui: UiState { mode: AppMode::PostView, ..o.ui }, effects: n.effects, ..o })
                    &&& queued(o, n, seq![Effect::Play(SoundType::PopupOpen)])
                },
            }
        },
        Some(InputMode::UpdatePassword) => {
            &&& n == (App { auth: n.auth, ui: UiState { mode: AppMode::Settings, ..o.ui }, effects: n.effects, ..o })
            &&& auth_is(o.auth, n.auth, None, Seq::empty(), Seq::empty())
            &&& popup_then_send(o.effects@, n.effects@, |c: ClientMessage| c matches ClientMessage::UpdatePassword(p) && p@ == input)
        },
        Some(_) => {
            &&& n == (App { auth: n.auth, ui: UiState { mode: AppMode::MainMenu, ..o.ui }, ..o })
            &&& auth_is(o.auth, n.auth, None, Seq::empty(), Seq::empty())
        },
    }
}

/// A key in a popup input: enter submits (see `input_submitted`),
/// characters are typed, backspace erases, escape closes the popup and
/// goes back to the main menu.
pub open spec fn input_mode_key(o: App, n: App, key: KeyEvent) -> bool {
    match key.code {
        KeyCode::Enter => input_submitted(o, n),
        KeyCode::Char(c) => n == (App { auth: AuthState { current_input: n.auth.current_input, ..o.auth }, ..o })
            && n.auth.current_input@ == o.auth.current_input@.push(c),
        KeyCode::Backspace => n == (App { auth: AuthState { current_input: n.auth.current_input, ..o.auth }, ..o })
            && n.auth.current_input@ == if o.auth.current_input@.len() > 0 {
                o.auth.current_input@.drop_last()
            } else {
                o.auth.current_input@
            },
        KeyCode::Esc => n == (App { auth: AuthState { input_mode: None, ..o.auth }, ui: UiState { mode: AppMode::MainMenu, ..o.ui }, ..o }),
        _ => n == o,
    }
}

fn is_blank(s: &String) -> (r: bool)
    ensures
        r == (trim(s@).len() == 0),
{
    trim_chars(&chars_of(s.as_str())).len() == 0
}

#[verifier::rlimit(60)]
fn submit_input(app: &mut App)
    ensures
        input_submitted(*old(app), *final(app)),
{
    let input = app.auth.current_input.clone();
    let prev_input = app.auth.password_input.clone();
    app.auth.clear_inputs();
    let im = app.auth.input_mode;
    app.auth.input_mode = None;
    let ghost e0 = app.effects@;
    match im {
        None => {},
        Some(InputMode::NewForumName) => {
            app.play(SoundType::PopupOpen);
            if is_blank(&input) {
                app.set_notification("Forum name cannot be empty.".to_string(), None, false);
                app.auth.set_input_mode(InputMode::NewForumName);
                return;
            }
            app.enter_input_mode(InputMode::NewForumDescription);
            app.auth.password_input = input;
        },
        Some(InputMode::NewForumDescription) => {
            app.play(SoundType::PopupOpen);
            if is_blank(&prev_input) || is_blank(&input) {
                app.set_notification("Forum name and description cannot be empty.".to_string(), None, false);
                app.auth.set_input_mode(InputMode::NewForumName);
                app.auth.password_input = prev_input;
                return;
            }
            app.send_to_server(ClientMessage::CreateForum { name: prev_input, description: input });
            app.set_notification("Forum creation requested!".to_string(), Some(1500), false);
            app.ui.set_mode(AppMode::ForumList);
        },
        Some(InputMode::NewThreadTitle) => {
            app.play(SoundType::PopupOpen);
            if is_blank(&input) {
                app.set_notification("Thread title cannot be empty.".to_string(), None, false);
                app.auth.set_input_mode(InputMode::NewThreadTitle);
                return;
            }
            app.enter_input_mode(InputMode::NewThreadContent);
            app.auth.password_input = input;
        },
        Some(InputMode::NewThreadContent) => {
            app.play(SoundType::PopupOpen);
            if is_blank(&prev_input) || is_blank(&input) {
                app.set_notification("Thread title and content cannot be empty.".to_string(), None, false);
                app.auth.set_input_mode(InputMode::NewThreadTitle);
                app.auth.password_input = prev_input;
                return;
            }
            match app.forum.current_forum_id {
                Some(forum_id) => {
                    app.forum.pending_new_thread_title = Some(prev_input.clone());
                    app.send_to_server(ClientMessage::CreateThread { forum_id, title: prev_input, content: input });
                    app.set_notification("Thread submitted!".to_string(), Some(1500), false);
                },
                None => {},
            }
            app.ui.set_mode(AppMode::ThreadList);
        },
        Some(InputMode::NewPostContent) => {
            app.play(SoundType::PopupOpen);
            if is_blank(&input) {
                app.set_notification("Post content cannot be empty.".to_string(), None, false);
                app.auth.set_input_mode(InputMode::NewPostContent);
                return;
            }
            match app.forum.current_thread_id {
                Some(thread_id) => {
                    app.send_to_server(ClientMessage::CreatePost { thread_id, content: input });
                    app.set_notification("Reply submitted!".to_string(), Some(1500), false);
                },
                None => {},
            }
            app.ui.set_mode(AppMode::PostView);
        },
        Some(InputMode::UpdatePassword) => {
            app.play(SoundType::PopupOpen);
            app.send_to_server(ClientMessage::UpdatePassword(input));
            app.ui.set_mode(AppMode::Settings);
        },
        Some(_) => {
            app.ui.set_mode(AppMode::MainMenu);
        },
    }
    assert(app.effects@.take(e0.len() as int) =~= e0);
}

/// Handles a key in a popup input (see `input_mode_key`).
pub fn handle_input_mode(key: KeyEvent, app: &mut App)
    ensures
        input_mode_key(*old(app), *final(app), key),
{
    match key.code {
        KeyCode::Enter => submit_input(app),
        KeyCode::Char(c) => push_char(&mut app.auth.current_input, c),
        KeyCode::Backspace => pop_char(&mut app.auth.current_input),
        KeyCode::Esc => {
            app.auth.input_mode = None;
            app.ui.set_mode(AppMode::MainMenu);
        },
        _ => {},
    }
}

} // verus!
