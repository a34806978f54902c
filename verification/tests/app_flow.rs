use nexus_tui::app::{App, Effect};
use nexus_tui::error::AppError;
use nexus_tui::handlers::handle_key_event;
use nexus_tui::handlers::navigation::{next_index, prev_index};
use nexus_tui::input::{KeyCode, KeyEvent, KeyModifiers};
use nexus_tui::model::{
    Channel, ChannelMessage, ClientMessage, Color, Forum, Post, Server, ServerMessage, Thread, User, UserRole,
    UserStatus,
};
use nexus_tui::prefs::{init_global_prefs, GlobalPrefs};
use nexus_tui::sound::SoundType;
use nexus_tui::state::auth::InputMode;
use nexus_tui::handlers::profile::handle_profile_edit_input;
use nexus_tui::state::profile::ProfileEditFocus;
use nexus_tui::state::chat::{ChatFocus, ChatTarget};
use nexus_tui::state::ui::AppMode;

fn new_app() -> App {
    let mut app = App::new();
    init_global_prefs(&mut app.prefs, GlobalPrefs::default_prefs());
    app
}

fn user(id: u128, name: &str) -> User {
    User {
        id,
        username: name.to_string(),
        color: Color::Green,
        role: UserRole::User,
        profile_pic: None,
        cover_banner: None,
        status: UserStatus::Connected,
    }
}

fn press(app: &mut App, code: KeyCode) {
    handle_key_event(KeyEvent::new(code), app, None, None);
}

fn type_text(app: &mut App, text: &str) {
    for c in text.chars() {
        press(app, KeyCode::Char(c));
    }
}

fn plays(effects: &[Effect], sound: SoundType) -> bool {
    effects.iter().any(|e| matches!(e, Effect::Play(s) if *s == sound))
}

fn notification_text(app: &App) -> Option<String> {
    app.notifications.current_notification.as_ref().map(|(m, _, _)| m.clone())
}

fn chat_app() -> App {
    let mut app = new_app();
    app.handle_server_message(ServerMessage::AuthSuccess(user(1, "me")));
    app.ui.mode = AppMode::Chat;
    app.chat.servers = vec![Server {
        id: 100,
        name: "srv".to_string(),
        owner: 1,
        channels: vec![Channel { id: 5, server_id: 100, name: "general".to_string() }],
    }];
    app.chat.selected_server = Some(0);
    app.chat.selected_channel = Some(0);
    app.chat.current_chat_target = Some(ChatTarget::Channel { server_id: 100, channel_id: 5 });
    app.chat.chat_focus = ChatFocus::Messages;
    app.take_effects();
    app
}

// ---------------------------------------------------------------------
// Login and register screens
// ---------------------------------------------------------------------

#[test]
fn login_sends_credentials() {
    let mut app = new_app();
    assert_eq!(app.ui.mode, AppMode::Login);
    type_text(&mut app, "bob");
    press(&mut app, KeyCode::Enter);
    assert_eq!(app.auth.input_mode, Some(InputMode::LoginPassword));
    type_text(&mut app, "pw!");
    press(&mut app, KeyCode::Backspace);
    press(&mut app, KeyCode::Enter);
    assert_eq!(app.auth.input_mode, Some(InputMode::AuthSubmit));
    press(&mut app, KeyCode::Enter);
    let effects = app.take_effects();
    assert_eq!(effects.len(), 1);
    match &effects[0] {
        Effect::Send(ClientMessage::Login { username, password }) => {
            assert_eq!(username, "bob");
            assert_eq!(password, "pw");
        }
        other => panic!("unexpected {:?}", other),
    }
    assert!(app.auth.current_input.is_empty());
    assert!(app.auth.password_input.is_empty());
}

#[test]
fn login_refuses_empty_fields() {
    let mut app = new_app();
    press(&mut app, KeyCode::Enter);
    press(&mut app, KeyCode::Enter);
    press(&mut app, KeyCode::Enter);
    assert_eq!(notification_text(&app), Some("Fields cannot be empty.".to_string()));
    assert!(plays(&app.take_effects(), SoundType::LoginFailure));
}

#[test]
fn tab_cycles_the_form_and_back_tab_undoes_it() {
    let mut app = new_app();
    for _ in 0..4 {
        press(&mut app, KeyCode::Tab);
    }
    assert_eq!(app.auth.input_mode, Some(InputMode::LoginUsername));
    press(&mut app, KeyCode::Tab);
    assert_eq!(app.auth.input_mode, Some(InputMode::LoginPassword));
    press(&mut app, KeyCode::BackTab);
    assert_eq!(app.auth.input_mode, Some(InputMode::LoginUsername));
    press(&mut app, KeyCode::BackTab);
    assert_eq!(app.auth.input_mode, Some(InputMode::AuthSwitch));
}

#[test]
fn switch_to_register_and_register() {
    let mut app = new_app();
    press(&mut app, KeyCode::BackTab);
    press(&mut app, KeyCode::Enter);
    assert_eq!(app.ui.mode, AppMode::Register);
    assert_eq!(app.auth.input_mode, Some(InputMode::RegisterUsername));
    type_text(&mut app, "new");
    press(&mut app, KeyCode::Enter);
    type_text(&mut app, "secret");
    press(&mut app, KeyCode::Enter);
    press(&mut app, KeyCode::Enter);
    let effects = app.take_effects();
    assert!(matches!(&effects[0], Effect::Send(ClientMessage::Register { username, password })
        if username == "new" && password == "secret"));
}

#[test]
fn escape_quits_from_login() {
    let mut app = new_app();
    press(&mut app, KeyCode::Esc);
    assert!(app.ui.should_quit);
}

// ---------------------------------------------------------------------
// Server answers
// ---------------------------------------------------------------------

#[test]
fn auth_success_opens_main_menu() {
    let mut app = new_app();
    app.handle_server_message(ServerMessage::AuthSuccess(user(3, "zed")));
    assert_eq!(app.ui.mode, AppMode::MainMenu);
    assert_eq!(app.ui.main_menu_state.selected(), Some(0));
    assert_eq!(app.auth.current_user.as_ref().map(|u| u.id), Some(3));
    assert!(plays(&app.take_effects(), SoundType::LoginSuccess));
}

#[test]
fn auth_failure_shows_reason() {
    let mut app = new_app();
    app.handle_server_message(ServerMessage::AuthFailure("bad password".to_string()));
    assert_eq!(notification_text(&app), Some("Error: bad password".to_string()));
    assert!(plays(&app.take_effects(), SoundType::LoginFailure));
}

#[test]
fn channel_user_list_is_sorted_descending_by_name() {
    let mut app = chat_app();
    app.handle_server_message(ServerMessage::ChannelUserList {
        channel_id: 5,
        users: vec![user(1, "bob"), user(2, "Alice"), user(3, "carl")],
    });
    let names: Vec<String> = app.chat.channel_userlist.iter().map(|u| u.username.clone()).collect();
    assert_eq!(names, vec!["carl".to_string(), "bob".to_string(), "Alice".to_string()]);
    assert_eq!(app.chat.user_list_state.selected(), Some(0));
}

#[test]
fn channel_message_in_shown_channel_is_appended() {
    let mut app = chat_app();
    app.chat.chat_scroll_offset = 4;
    app.handle_server_message(ServerMessage::NewChannelMessage(ChannelMessage {
        id: 1,
        channel_id: 5,
        sent_by: 2,
        timestamp: 0,
        content: "hi".to_string(),
    }));
    assert_eq!(app.chat.chat_messages.len(), 1);
    assert_eq!(app.chat.chat_scroll_offset, 0);
    assert!(plays(&app.take_effects(), SoundType::ReceiveChannelMessage));
    app.handle_server_message(ServerMessage::NewChannelMessage(ChannelMessage {
        id: 2,
        channel_id: 6,
        sent_by: 2,
        timestamp: 0,
        content: "elsewhere".to_string(),
    }));
    assert_eq!(app.chat.chat_messages.len(), 1);
    assert!(app.chat.unread_channels.contains(&6));
}

#[test]
fn slow_query_is_reported() {
    let mut app = new_app();
    app.handle_server_message(ServerMessage::PerformanceMetrics { query_time_ms: 1000, message_count: 1 });
    assert_eq!(notification_text(&app), None);
    app.handle_server_message(ServerMessage::PerformanceMetrics { query_time_ms: 1001, message_count: 1 });
    assert_eq!(notification_text(&app), Some("Slow network detected".to_string()));
}

#[test]
fn user_left_is_marked_offline() {
    let mut app = chat_app();
    app.chat.channel_userlist = vec![user(2, "b")];
    app.handle_server_message(ServerMessage::UserLeft(2));
    assert_eq!(app.chat.channel_userlist[0].status, UserStatus::Offline);
}

// ---------------------------------------------------------------------
// Menus and popups
// ---------------------------------------------------------------------

#[test]
fn main_menu_wraps_and_logs_out() {
    let mut app = new_app();
    app.handle_server_message(ServerMessage::AuthSuccess(user(3, "zed")));
    app.take_effects();
    press(&mut app, KeyCode::Up);
    assert_eq!(app.ui.main_menu_state.selected(), Some(3));
    press(&mut app, KeyCode::Down);
    assert_eq!(app.ui.main_menu_state.selected(), Some(0));
    press(&mut app, KeyCode::Up);
    press(&mut app, KeyCode::Enter);
    assert_eq!(app.ui.mode, AppMode::Login);
    assert!(app.auth.current_user.is_none());
    let effects = app.take_effects();
    assert!(effects.iter().any(|e| matches!(e, Effect::Send(ClientMessage::Logout))));
}

#[test]
fn main_menu_opens_chat() {
    let mut app = new_app();
    app.handle_server_message(ServerMessage::AuthSuccess(user(3, "zed")));
    app.take_effects();
    press(&mut app, KeyCode::Down);
    press(&mut app, KeyCode::Enter);
    assert_eq!(app.ui.mode, AppMode::Chat);
    let effects = app.take_effects();
    let sends: Vec<&Effect> = effects.iter().filter(|e| matches!(e, Effect::Send(_))).collect();
    assert!(matches!(sends[0], Effect::Send(ClientMessage::GetServers)));
    assert!(matches!(sends[1], Effect::Send(ClientMessage::GetDMUserList)));
}

#[test]
fn quit_confirmation() {
    let mut app = new_app();
    app.ui.show_quit_confirm = true;
    press(&mut app, KeyCode::Right);
    assert_eq!(app.ui.quit_confirm_selected, 1);
    press(&mut app, KeyCode::Enter);
    assert!(!app.ui.should_quit);
    assert!(!app.ui.show_quit_confirm);
    app.ui.show_quit_confirm = true;
    press(&mut app, KeyCode::Left);
    assert_eq!(app.ui.quit_confirm_selected, 0);
    press(&mut app, KeyCode::Enter);
    assert!(app.ui.should_quit);
}

#[test]
fn server_error_popup_retries() {
    let mut app = new_app();
    app.ui.show_server_error(String::from("lost"));
    press(&mut app, KeyCode::Char('x'));
    assert!(app.ui.show_server_error);
    press(&mut app, KeyCode::Enter);
    assert!(!app.ui.show_server_error);
    assert!(app.ui.should_retry_connection);
    assert!(app.ui.server_error_message.is_empty());
    app.ui.show_server_error(String::from("again"));
    let mut ctrl = KeyModifiers::none();
    ctrl.control = true;
    handle_key_event(KeyEvent::with_modifiers(KeyCode::Char('c'), ctrl), &mut app, None, None);
    assert!(app.ui.should_quit);
}

#[test]
fn any_key_closes_a_notification() {
    let mut app = new_app();
    app.set_notification("hello".to_string(), None, false);
    press(&mut app, KeyCode::Char('a'));
    assert!(app.notifications.current_notification.is_none());
    assert!(app.auth.current_input.is_empty());
}

#[test]
fn notifications_close_after_their_duration() {
    let mut app = new_app();
    app.set_notification("brief".to_string(), Some(2), true);
    app.on_tick();
    assert!(app.notifications.current_notification.is_some());
    app.on_tick();
    assert!(app.notifications.current_notification.is_none());
    app.set_notification("stays".to_string(), None, false);
    for _ in 0..5 {
        app.on_tick();
    }
    assert_eq!(notification_text(&app), Some("stays".to_string()));
    assert_eq!(app.ui.tick_count, 7);
}

#[test]
fn f6_refreshes_notifications_on_chat_screen() {
    let mut app = chat_app();
    handle_key_event(KeyEvent::new(KeyCode::F(6)), &mut app, None, None);
    assert_eq!(notification_text(&app), Some("Refreshing notifications...".to_string()));
    let effects = app.take_effects();
    assert!(matches!(&effects[0], Effect::Send(ClientMessage::GetNotifications { before: None })));
}

// ---------------------------------------------------------------------
// Chat drafts and sending
// ---------------------------------------------------------------------

#[test]
fn drafts_are_kept_per_conversation() {
    let mut app = chat_app();
    app.set_current_input("for channel".to_string());
    app.set_current_chat_target(ChatTarget::DM { user_id: 9 });
    assert_eq!(app.get_current_input(), "");
    app.set_current_input("for dm".to_string());
    app.set_current_chat_target(ChatTarget::Channel { server_id: 100, channel_id: 5 });
    assert_eq!(app.get_current_input(), "for channel");
    app.set_current_chat_target(ChatTarget::DM { user_id: 9 });
    assert_eq!(app.get_current_input(), "for dm");
    app.clear_current_input();
    assert_eq!(app.get_current_input(), "");
}

#[test]
fn sending_a_message() {
    let mut app = chat_app();
    match app.send_message() {
        Err(AppError::Validation(m)) => assert_eq!(m, "Message cannot be empty"),
        other => panic!("unexpected {:?}", other),
    }
    app.set_current_input("  hello all  ".to_string());
    assert!(app.send_message().is_ok());
    assert_eq!(app.get_current_input(), "");
    let effects = app.take_effects();
    assert!(matches!(&effects[0], Effect::Send(ClientMessage::SendChannelMessage { channel_id: 5, content })
        if content == "hello all"));
    assert!(matches!(&effects[1], Effect::Play(SoundType::SendChannelMessage)));
    app.set_current_input("x".repeat(2001));
    match app.send_message() {
        Err(AppError::Validation(m)) => assert_eq!(m, "Message too long (max 2000 characters)"),
        other => panic!("unexpected {:?}", other),
    }
}

#[test]
fn typing_in_chat_goes_to_the_draft() {
    let mut app = chat_app();
    type_text(&mut app, "hey");
    assert_eq!(app.get_current_input(), "hey");
    press(&mut app, KeyCode::Backspace);
    assert_eq!(app.get_current_input(), "he");
}

#[test]
fn chat_titles() {
    let mut app = chat_app();
    assert_eq!(app.get_current_chat_title(), "Channel // #general");
    app.chat.dm_user_list = vec![user(9, "pal")];
    app.chat.selected_dm_user = Some(0);
    app.set_current_chat_target(ChatTarget::DM { user_id: 9 });
    assert_eq!(app.get_current_chat_title(), "Conversation // @pal");
    app.chat.current_chat_target = None;
    assert_eq!(app.get_current_chat_title(), "Chat");
}

#[test]
fn mention_suggestions_on_the_app() {
    let mut app = chat_app();
    app.chat.channel_userlist = vec![user(1, "alice"), user(2, "bob"), user(3, "alex")];
    app.set_current_input("hi @al".to_string());
    app.update_mention_suggestions();
    assert_eq!(app.chat.mention_suggestions.len(), 2);
    assert_eq!(app.chat.mention_prefix, Some("al".to_string()));
}

// ---------------------------------------------------------------------
// Row movement
// ---------------------------------------------------------------------

#[test]
fn next_and_prev_index_are_inverse() {
    for n in 1..6usize {
        for a in 0..n {
            assert_eq!(prev_index(next_index(a, n), n), a);
            assert_eq!(next_index(prev_index(a, n), n), a);
        }
    }
    assert_eq!(next_index(3, 4), 0);
    assert_eq!(prev_index(0, 4), 3);
}

#[test]
fn dm_list_is_walked_unread_first_then_by_name() {
    let mut app = chat_app();
    app.chat.sidebar_tab = nexus_tui::state::chat::SidebarTab::DMs;
    app.chat.chat_focus = ChatFocus::Sidebar;
    app.chat.dm_user_list = vec![user(1, "bob"), user(2, "Alice"), user(3, "carl"), user(4, "dave")];
    app.chat.unread_dm_conversations.insert(3);
    app.chat.selected_dm_user = None;
    let mut seen = Vec::new();
    for _ in 0..4 {
        press(&mut app, KeyCode::Down);
        seen.push(app.chat.selected_dm_user.unwrap());
    }
    assert_eq!(seen, vec![1, 0, 3, 2]);
}

#[test]
fn selected_post_stays_on_screen() {
    let mut app = chat_app();
    let posts: Vec<Post> = (0..12u128)
        .map(|i| Post { id: i, author: user(1, "a"), content: format!("p{}", i), timestamp: 0, reply_to: None })
        .collect();
    app.forum.forums = vec![Forum {
        id: 7,
        name: "f".to_string(),
        description: String::new(),
        threads: vec![Thread { id: 8, title: "t".to_string(), author: user(1, "a"), posts, timestamp: 0 }],
    }];
    app.forum.current_forum_id = Some(7);
    app.forum.current_thread_id = Some(8);
    for step in 0..30 {
        let direction = if step < 18 { 1 } else { -1 };
        app.forum.move_post_selection(direction);
        let k = app.forum.selected_post_index.unwrap();
        assert!(k < 12);
        assert!(app.forum.scroll_offset <= k && k < app.forum.scroll_offset + 5);
    }
    assert_eq!(app.forum.selected_post_index, Some(0));
    assert_eq!(app.forum.scroll_offset, 0);
}

#[test]
fn paging_up_and_down_in_the_chat() {
    let mut app = chat_app();
    app.chat.chat_messages = (0..50u128)
        .map(|i| ChannelMessage { id: i, channel_id: 5, sent_by: 1, timestamp: i as i64, content: String::new() })
        .collect();
    app.chat.channel_history_complete.insert(5, true);
    app.chat.last_chat_rows = Some(10);
    press(&mut app, KeyCode::PageUp);
    assert_eq!(app.chat.chat_scroll_offset, 10);
    press(&mut app, KeyCode::PageDown);
    assert_eq!(app.chat.chat_scroll_offset, 0);
    for _ in 0..10 {
        press(&mut app, KeyCode::PageUp);
    }
    assert_eq!(app.chat.chat_scroll_offset, 40);
    press(&mut app, KeyCode::PageDown);
    assert_eq!(app.chat.chat_scroll_offset, 30);
    for _ in 0..10 {
        press(&mut app, KeyCode::PageDown);
    }
    assert_eq!(app.chat.chat_scroll_offset, 0);
    let effects = app.take_effects();
    assert!(!effects.iter().any(|e| matches!(e, Effect::Send(_))));
}

#[test]
fn post_view_reply_navigation() {
    let mut app = chat_app();
    let post = |id: u128, reply_to: Option<u128>| Post {
        id,
        author: user(1, "a"),
        content: format!("post {}", id),
        timestamp: 0,
        reply_to,
    };
    let posts = vec![post(100, None), post(101, Some(100)), post(102, Some(100))];
    app.forum.forums = vec![Forum {
        id: 7,
        name: "f".to_string(),
        description: String::new(),
        threads: vec![Thread { id: 8, title: "t".to_string(), author: user(1, "a"), posts, timestamp: 0 }],
    }];
    app.forum.current_forum_id = Some(7);
    app.forum.current_thread_id = Some(8);
    app.forum.selected_post_index = Some(0);
    app.ui.mode = AppMode::PostView;
    press(&mut app, KeyCode::Right);
    assert_eq!(app.forum.selected_reply_index, Some(0));
    press(&mut app, KeyCode::Right);
    assert_eq!(app.forum.selected_reply_index, Some(1));
    press(&mut app, KeyCode::Left);
    assert_eq!(app.forum.selected_reply_index, Some(0));
    press(&mut app, KeyCode::Left);
    assert_eq!(app.forum.selected_reply_index, Some(1));
    press(&mut app, KeyCode::Enter);
    assert_eq!(app.forum.selected_post_index, Some(2));
    assert_eq!(app.forum.selected_reply_index, None);
    assert_eq!(app.forum.scroll_offset, 2);
    press(&mut app, KeyCode::Char('c'));
    assert!(app.forum.show_reply_context);
    press(&mut app, KeyCode::Enter);
    assert_eq!(app.forum.selected_post_index, Some(0));
    assert_eq!(app.forum.scroll_offset, 0);
    press(&mut app, KeyCode::End);
    assert_eq!(app.forum.selected_post_index, Some(2));
    press(&mut app, KeyCode::Home);
    assert_eq!(app.forum.selected_post_index, Some(0));
    press(&mut app, KeyCode::Char('r'));
    assert_eq!(app.ui.mode, AppMode::Input);
    assert_eq!(app.auth.input_mode, Some(InputMode::NewPostContent));
    assert_eq!(app.forum.reply_to_post_id, Some(100));
}

#[test]
fn saving_the_profile() {
    let mut app = chat_app();
    app.profile.edit_bio = "hello".to_string();
    app.profile.edit_url1 = "ftp://x".to_string();
    match app.save_profile(None, None) {
        Err(AppError::Validation(m)) => assert_eq!(m, "URL1 is not valid"),
        other => panic!("unexpected {:?}", other),
    }
    assert!(app.take_effects().is_empty());
    app.profile.edit_url1 = "https://x.y".to_string();
    app.profile.edit_profile_pic = "AQID".to_string();
    match app.save_profile(None, None) {
        Err(AppError::Image(m)) => assert!(m.starts_with("Invalid image data: ")),
        other => panic!("unexpected {:?}", other),
    }
    app.profile.edit_profile_pic = "https://x.y/p.png".to_string();
    match app.save_profile(None, None) {
        Err(AppError::Image(m)) => assert_eq!(m, "Failed to decode image data"),
        other => panic!("unexpected {:?}", other),
    }
    let png = "data:image/png;base64,iVBORw0KGgoAAAANSUhEUgAAAAEAAAABCAYAAAAfFcSJAAAADUlEQVR42mNkYPhfDwAChwGA60e6kgAAAABJRU5ErkJggg==";
    app.profile.edit_profile_pic = png.to_string();
    app.profile.profile_edit_error = Some("old".to_string());
    assert!(app.save_profile(None, None).is_ok());
    assert!(app.profile.profile_edit_error.is_none());
    let effects = app.take_effects();
    assert_eq!(effects.len(), 1);
    match &effects[0] {
        Effect::Send(ClientMessage::UpdateProfile { bio, url1, url2, profile_pic, cover_banner, .. }) => {
            assert_eq!(bio.as_deref(), Some("hello"));
            assert_eq!(url1.as_deref(), Some("https://x.y"));
            assert_eq!(url2.as_deref(), Some(""));
            assert_eq!(profile_pic.as_deref(), Some(png));
            assert_eq!(cover_banner, &None);
        }
        other => panic!("unexpected {:?}", other),
    }
}

#[test]
fn preferences_silence_sounds_and_desktop_notifications() {
    let mut app = App::new();
    init_global_prefs(
        &mut app.prefs,
        GlobalPrefs { sound_effects_enabled: false, minimal_banner_glitch_enabled: true, desktop_notifications_enabled: false },
    );
    app.play(SoundType::Select);
    app.send_to_server(ClientMessage::GetServers);
    let effects = app.take_effects();
    assert_eq!(effects.len(), 1);
    assert!(matches!(effects[0], Effect::Send(ClientMessage::GetServers)));
    assert!(!plays(&effects, SoundType::Select));

    let mut loud = new_app();
    loud.play(SoundType::Select);
    loud.send_to_server(ClientMessage::GetServers);
    let effects = loud.take_effects();
    assert_eq!(effects.len(), 2);
    assert!(plays(&effects, SoundType::Select));
}

#[test]
fn new_app_has_an_empty_conversation() {
    let app = App::new();
    assert!(app.chat.chat_messages.is_empty());
    assert!(app.chat.dm_messages.is_empty());
    assert!(app.chat.chat_input_drafts.is_empty());
    assert!(app.forum.forums.is_empty());
    assert!(app.notifications.notifications.is_empty());
    assert!(app.effects.is_empty());
}

#[test]
fn emoji_grid_selection_stays_in_list() {
    let mut app = chat_app();
    type_text(&mut app, "hi :s");
    let n = app.chat.emoji_suggestions.len();
    assert!(n > 0);
    assert!(app.chat.mention_suggestions.is_empty());
    let draft = app.get_current_input().to_string();
    let suggestions = app.chat.emoji_suggestions.clone();
    let offset = app.chat.chat_scroll_offset;
    for code in [KeyCode::Down, KeyCode::Down, KeyCode::Right, KeyCode::Right, KeyCode::Right, KeyCode::Right,
        KeyCode::Up, KeyCode::Left, KeyCode::Left, KeyCode::Down, KeyCode::Down, KeyCode::Down, KeyCode::Down,
        KeyCode::Down, KeyCode::Up, KeyCode::Up]
    {
        press(&mut app, code);
        assert!(app.chat.emoji_selected < n);
        assert_eq!(app.chat.emoji_suggestions, suggestions);
        assert_eq!(app.chat.chat_scroll_offset, offset);
        assert_eq!(app.get_current_input(), draft);
    }
}

#[test]
fn profile_editor_focus_cycles() {
    let mut app = new_app();
    app.ui.mode = AppMode::EditProfile;
    app.profile.edit_bio = "hello".to_string();
    let start = app.profile.profile_edit_focus;
    assert_eq!(start, ProfileEditFocus::Bio);
    handle_profile_edit_input(KeyEvent::new(KeyCode::Tab), &mut app, None, None);
    assert_eq!(app.profile.profile_edit_focus, ProfileEditFocus::Location);
    handle_profile_edit_input(KeyEvent::new(KeyCode::Up), &mut app, None, None);
    assert_eq!(app.profile.profile_edit_focus, start);
    let mut seen = vec![start];
    for i in 0..11 {
        let code = if i % 2 == 0 { KeyCode::Tab } else { KeyCode::Down };
        handle_profile_edit_input(KeyEvent::new(code), &mut app, None, None);
        if i < 10 {
            assert!(!seen.contains(&app.profile.profile_edit_focus));
            seen.push(app.profile.profile_edit_focus);
        }
    }
    assert_eq!(app.profile.profile_edit_focus, start);
    assert_eq!(app.profile.edit_bio, "hello");
}
