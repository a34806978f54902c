//! Keys of the forum list, the thread list and the post view.

use vstd::prelude::*;
use crate::app::{App, Effect, queued, shows};
use crate::handlers::navigation::{next_index, prev_index, sel};
use crate::input::{KeyCode, KeyEvent};
use crate::model::{ClientMessage, UserRole};
use crate::sound::SoundType;
use crate::state::auth::InputMode;
use crate::state::forum::{ForumState, find_post};
use crate::state::ui::{AppMode, UiState};
use crate::state::ListSelection;

verus! {

/// The current user is an administrator.
pub open spec fn is_admin(o: App) -> bool {
    o.auth.current_user matches Some(u) && u.role == UserRole::Admin
}

/// `n` is `o` after `App::enter_input_mode(mode)`.
pub open spec fn entered_input(o: App, n: App, mode: InputMode) -> bool {
    &&& n == (App { auth: n.auth, ui: UiState { mode: AppMode::Input, ..o.ui }, notifications: n.notifications, ..o })
    &&& n.auth.current_user == o.auth.current_user && n.auth.input_mode == Some(mode)
    &&& n.auth.current_input@.len() == 0 && n.auth.password_input@.len() == 0
    &&& n.notifications.current_notification is None
    &&& n.notifications.notifications == o.notifications.notifications
    &&& n.notifications.notification_history_complete == o.notifications.notification_history_complete
}

/// The key is the letter, in either case.
pub open spec fn is_letter(key: KeyEvent, lower: char, upper: char) -> bool {
    key.code == KeyCode::Char(lower) || key.code == KeyCode::Char(upper)
}

/// A key of the forum list: up and down move over the forums (wrapping,
/// with the channel sound); enter opens the selected forum; an
/// administrator creates (`n`) or deletes (`d`) forums; escape goes back.
pub open spec fn forum_list_key(o: App, n: App, key: KeyEvent) -> bool {
    let len = o.forum.forums@.len() as int;
    if key.code == KeyCode::Down || key.code == KeyCode::Up {
        if len == 0 {
            n == o
        } else {
            let s = sel(o.forum.forum_list_state);
            let k = if key.code == KeyCode::Down { (s + 1) % len } else { (s + len - 1) % len };
            n == (App { forum: ForumState { forum_list_state: ListSelection { selected: Some(k as usize) }, ..o.forum }, effects: n.effects, ..o })
                && queued(o, n, seq![Effect::Play(SoundType::ChangeChannel)])
        }
    } else if key.code == KeyCode::Enter {
        match o.forum.forum_list_state.selected {
            Some(i) => if i < len {
                n == (App {
                    forum: ForumState {
                        current_forum_id: Some(o.forum.forums@[i as int].id),
                        thread_list_state: ListSelection { selected: Some(0) },
                        ..o.forum
                    },
                    ui: UiState { mode: AppMode::ThreadList, ..o.ui },
                    ..o
                })
            } else {
                n == o
            },
            None => n == o,
        }
    } else if is_letter(key, 'n', 'N') {
        if is_admin(o) { entered_input(o, n, InputMode::NewForumName) } else { n == o }
    } else if is_letter(key, 'd', 'D') {
        if is_admin(o) && o.forum.forum_list_state.selected is Some && o.forum.forum_list_state.selected->0 < len {
            &&& n == (App { notifications: n.notifications, effects: n.effects, ..o })
            &&& shows(o.notifications, n.notifications, "Forum deletion requested"@, Some(2000), false, o.ui.tick_count)
            &&& queued(o, n, seq![Effect::Send(ClientMessage::DeleteForum {
                forum_id: o.forum.forums@[o.forum.forum_list_state.selected->0 as int].id,
            })])
        } else {
            n == o
        }
    } else if key.code == KeyCode::Esc {
        n == (App { ui: UiState { mode: AppMode::MainMenu, ..o.ui }, ..o })
    } else {
        n == o
    }
}

fn is_admin_user(app: &App) -> (r: bool)
    ensures
        r == is_admin(*app),
{
    match &app.auth.current_user {
        Some(u) => u.role == UserRole::Admin,
        None => false,
    }
}

fn handle_forum_list_input(key: KeyEvent, app: &mut App)
    ensures
        forum_list_key(*old(app), *final(app), key),
{
    let len = app.forum.forums.len();
    match key.code {
        KeyCode::Down | KeyCode::Up => {
            if len > 0 {
                app.play(SoundType::ChangeChannel);
                let current = match app.forum.forum_list_state.selected() { Some(c) => c, None => 0 };
                let k = if key.code == KeyCode::Down { next_index(current, len) } else { prev_index(current, len) };
                app.forum.forum_list_state.select(Some(k));
            }
        },
        KeyCode::Enter => {
            match app.forum.forum_list_state.selected() {
                Some(idx) => {
                    if idx < len {
                        let id = app.forum.forums[idx].id;
                        app.forum.select_forum(id);
                        app.ui.set_mode(AppMode::ThreadList);
                    }
                },
                None => {},
            }
        },
        KeyCode::Char('n') | KeyCode::Char('N') => {
            if is_admin_user(app) {
                app.enter_input_mode(InputMode::NewForumName);
            }
        },
        KeyCode::Char('d') | KeyCode::Char('D') => {
            if is_admin_user(app) {
                match app.forum.forum_list_state.selected() {
                    Some(idx) => {
                        if idx < len {
                            let forum_id = app.forum.forums[idx].id;
                            app.send_to_server(ClientMessage::DeleteForum { forum_id });
                            app.set_notification("Forum deletion requested".to_string(), Some(2000), false);
                        }
                    },
                    None => {},
                }
            }
        },
        KeyCode::Esc => app.ui.set_mode(AppMode::MainMenu),
        _ => {},
    }
}

/// The threads of the forum shown, if it is found.
pub open spec fn current_threads(f: ForumState) -> Option<Seq<crate::model::Thread>> {
    match f.current_forum_pos() {
        Some(i) => Some(f.forums@[i].threads@),
        None => None,
    }
}

/// A key of the thread list: up and down move over the threads of the
/// forum shown; enter opens the selected thread; `n` starts a new thread;
/// an administrator deletes the selected thread with alt-`d`; escape goes
/// back to the forum list.
pub open spec fn thread_list_key(o: App, n: App, key: KeyEvent) -> bool {
    if key.code == KeyCode::Down || key.code == KeyCode::Up {
        match current_threads(o.forum) {
            Some(t) => if t.len() == 0 {
                n == o
            } else {
                let len = t.len() as int;
                let s = sel(o.forum.thread_list_state);
                let k = if key.code == KeyCode::Down { (s + 1) % len } else { (s + len - 1) % len };
                n == (App { forum: ForumState { thread_list_state: ListSelection { selected: Some(k as usize) }, ..o.forum }, effects: n.effects, ..o })
                    && queued(o, n, seq![Effect::Play(SoundType::ChangeChannel)])
            },
            None => n == o,
        }
    } else if key.code == KeyCode::Enter {
        match (o.forum.thread_list_state.selected, current_threads(o.forum)) {
            (Some(i), Some(t)) => if i < t.len() {
                n == (App {
                    forum: ForumState {
                        current_thread_id: Some(t[i as int].id),
                        selected_post_index: Some(0),
                        selected_reply_index: None,
                        reply_to_post_id: None,
                        scroll_offset: 0,
                        ..o.forum
                    },
                    ui: UiState { mode: AppMode::PostView, ..o.ui },
                    ..o
                })
            } else {
                n == o
            },
            _ => n == o,
        }
    } else if is_letter(key, 'n', 'N') {
        entered_input(o, n, InputMode::NewThreadTitle)
    } else if is_letter(key, 'd', 'D') && key.modifiers.alt {
        match (o.forum.thread_list_state.selected, current_threads(o.forum)) {
            (Some(i), Some(t)) => if is_admin(o) && i < t.len() {
                &&& n == (App { notifications: n.notifications, effects: n.effects, ..o })
                &&& shows(o.notifications, n.notifications, "Thread deletion requested"@, Some(2000), false, o.ui.tick_count)
                &&& queued(o, n, seq![Effect::Send(ClientMessage::DeleteThread(t[i as int].id))])
            } else {
                n == o
            },
            _ => n == o,
        }
    } else if key.code == KeyCode::Esc {
        n == (App { ui: UiState { mode: AppMode::ForumList, ..o.ui }, ..o })
    } else {
        n == o
    }
}

fn thread_count(app: &App) -> (r: Option<usize>)
    ensures
        r is Some <==> current_threads(app.forum) is Some,
        r matches Some(k) ==> k == current_threads(app.forum)->0.len(),
{
    match app.forum.get_current_forum() {
        Some(f) => Some(f.threads.len()),
        None => None,
    }
}

fn handle_thread_list_input(key: KeyEvent, app: &mut App)
    ensures
        thread_list_key(*old(app), *final(app), key),
{
    match key.code {
        KeyCode::Down | KeyCode::Up => {
            match thread_count(app) {
                Some(len) => {
                    if len > 0 {
                        app.play(SoundType::ChangeChannel);
                        let current = match app.forum.thread_list_state.selected() { Some(c) => c, None => 0 };
                        let k = if key.code == KeyCode::Down { next_index(current, len) } else { prev_index(current, len) };
                        app.forum.thread_list_state.select(Some(k));
                    }
                },
                None => {},
            }
        },
        KeyCode::Enter => {
            match app.forum.thread_list_state.selected() {
                Some(idx) => {
                    let tid = match app.forum.get_current_forum() {
                        Some(f) => if idx < f.threads.len() { Some(f.threads[idx].id) } else { None },
                        None => None,
                    };
                    match tid {
                        Some(id) => {
                            app.forum.select_thread(id);
                            app.ui.set_mode(AppMode::PostView);
                        },
                        None => {},
                    }
                },
                None => {},
            }
        },
        KeyCode::Char('n') | KeyCode::Char('N') => app.enter_input_mode(InputMode::NewThreadTitle),
        KeyCode::Char('d') | KeyCode::Char('D') => {
            if key.modifiers.alt && is_admin_user(app) {
                match app.forum.thread_list_state.selected() {
                    Some(idx) => {
                        let tid = match app.forum.get_current_forum() {
                            Some(f) => if idx < f.threads.len() { Some(f.threads[idx].id) } else { None },
                            None => None,
                        };
                        match tid {
                            Some(id) => {
                                app.send_to_server(ClientMessage::DeleteThread(id));
                                app.set_notification("Thread deletion requested".to_string(), Some(2000), false);
                            },
                            None => {},
                        }
                    },
                    None => {},
                }
            }
        },
        KeyCode::Esc => app.ui.set_mode(AppMode::ForumList),
        _ => {},
    }
}

/// The forum state of `n` and the sound played.
pub open spec fn forum_then_sound(o: App, n: App, f: ForumState, sound: SoundType) -> bool {
    n == (App { forum: f, effects: n.effects, ..o }) && queued(o, n, seq![Effect::Play(sound)])
}

/// A key of the post view: the arrows move over the posts (up and down)
/// and over the replies of the selected post (left and right); page up and
/// page down scroll by three posts; home and end select the first and the
/// last post; enter jumps to the post answered (in context mode) or opens
/// the selected reply; `c` switches the context mode; `r` replies to the
/// selected post (alt-`r` posts without answering one); an administrator
/// deletes the selected post with alt-`d`; escape leaves the replies, then
/// the thread.
pub open spec fn post_view_key(o: App, n: App, key: KeyEvent) -> bool {
    let f = o.forum;
    if key.code == KeyCode::Up || key.code == KeyCode::Down {
        n == (App { forum: n.forum, effects: n.effects, ..o })
            && ForumState::post_selection_moved(f, n.forum, if key.code == KeyCode::Up { -1i32 } else { 1i32 })
            && queued(o, n, seq![Effect::Play(SoundType::ChangeChannel)])
    } else if key.code == KeyCode::PageUp || key.code == KeyCode::PageDown {
        n == (App { forum: n.forum, effects: n.effects, ..o })
            && ForumState::posts_scrolled(f, n.forum, if key.code == KeyCode::PageUp { -1i32 } else { 1i32 }, 3)
            && queued(o, n, seq![Effect::Play(SoundType::Scroll)])
    } else if key.code == KeyCode::Home || key.code == KeyCode::End {
        match f.current_posts() {
            Some(p) => if p.len() == 0 {
                n == o
            } else if key.code == KeyCode::Home {
                forum_then_sound(o, n, ForumState { selected_post_index: Some(0), scroll_offset: 0, selected_reply_index: None, ..f },
                    SoundType::ChangeChannel)
            } else {
                forum_then_sound(o, n, ForumState {
                    selected_post_index: Some((p.len() - 1) as usize),
                    scroll_offset: ForumState::auto_scrolled(f.scroll_offset as int, p.len() - 1, p.len() as int) as usize,
                    selected_reply_index: None,
                    ..f
                }, SoundType::ChangeChannel)
            },
            None => n == o,
        }
    } else if key.code == KeyCode::Left {
        if f.selected_reply_index is Some {
            n == (App { forum: n.forum, effects: n.effects, ..o })
                && ForumState::reply_selection_moved(f, n.forum, -1i32)
                && queued(o, n, seq![Effect::Play(SoundType::ChangeChannel)])
        } else {
            n == o
        }
    } else if key.code == KeyCode::Right {
        if f.selected_replies() is Some && f.selected_replies()->0.len() > 0 {
            if f.selected_reply_index is None {
                forum_then_sound(o, n, ForumState { selected_reply_index: Some(0), ..f }, SoundType::ChangeChannel)
            } else {
                n == (App { forum: n.forum, effects: n.effects, ..o })
                    && ForumState::reply_selection_moved(f, n.forum, 1i32)
                    && queued(o, n, seq![Effect::Play(SoundType::ChangeChannel)])
            }
        } else {
            n == o
        }
    } else if key.code == KeyCode::Enter {
        if f.show_reply_context {
            exists|r: bool| #[trigger] ForumState::jumped_to_replied(f, n.forum, r)
                && n == (App { forum: n.forum, effects: n.effects, ..o })
                && queued(o, n, seq![Effect::Play(if r { SoundType::PopupOpen } else { SoundType::Error })])
        } else if f.selected_replies() is Some && f.selected_reply_index is Some
            && f.selected_reply_index->0 < f.selected_replies()->0.len() {
            let p = f.current_posts()->0;
            let reply = p[f.selected_replies()->0[f.selected_reply_index->0 as int]];
            match find_post(p, reply.id) {
                Some(idx) => forum_then_sound(o, n, ForumState {
                    selected_post_index: Some(idx as usize),
                    selected_reply_index: None,
                    scroll_offset: idx as usize,
                    ..f
                }, SoundType::PopupOpen),
                None => n == o,
            }
        } else {
            n == o
        }
    } else if is_letter(key, 'c', 'C') {
        forum_then_sound(o, n, ForumState { show_reply_context: !f.show_reply_context, ..f },
            if !f.show_reply_context { SoundType::PopupOpen } else { SoundType::PopupClose })
    } else if is_letter(key, 'r', 'R') {
        let target = if key.modifiers.alt {
            None
        } else {
            match f.selected_post_spec() {
                Some(post) => Some(post.id),
                None => None,
            }
        };
        let mid = App { forum: ForumState { reply_to_post_id: target, ..f }, ..o };
        entered_input(mid, n, InputMode::NewPostContent)
    } else if is_letter(key, 'd', 'D') && key.modifiers.alt {
        if is_admin(o) && f.selected_post_spec() is Some {
            &&& n == (App { notifications: n.notifications, effects: n.effects, ..o })
            &&& shows(o.notifications, n.notifications, "Post deletion requested"@, Some(2000), false, o.ui.tick_count)
            &&& queued(o, n, seq![Effect::Send(ClientMessage::DeletePost(f.selected_post_spec()->0.id))])
        } else {
            n == o
        }
    } else if key.code == KeyCode::Esc {
        if f.selected_reply_index is Some {
            forum_then_sound(o, n, ForumState { selected_reply_index: None, ..f }, SoundType::PopupClose)
        } else {
            n == (App { ui: UiState { mode: AppMode::ThreadList, ..o.ui }, ..o })
        }
    } else {
        n == o
    }
}

fn post_position(app: &App, id: u128) -> (r: Option<usize>)
    requires
        app.forum.current_posts() is Some,
    ensures
        r matches Some(i) ==> find_post(app.forum.current_posts()->0, id) == Some(i as int),
        r is None ==> find_post(app.forum.current_posts()->0, id) is None,
{
    let posts = &app.forum.get_current_thread().unwrap().posts;
    let ghost p = posts@;
    let mut i: usize = 0;
    assert(p.skip(0) =~= p);
    while i < posts.len()
        invariant
            i <= p.len(),
            p == posts@,
            app.forum.current_posts() is Some,
            p == app.forum.current_posts()->0,
            find_post(p, id) == match find_post(p.skip(i as int), id) {
                Some(k) => Some(k + i),
                None => None::<int>,
            },
        decreases p.len() - i,
    {
        if posts[i].id == id {
            assert(p.skip(i as int)[0].id == id);
            return Some(i);
        }
        assert(p.skip(i as int).drop_first() =~= p.skip(i + 1));
        i = i + 1;
    }
    assert(p.skip(i as int) =~= Seq::<crate::model::Post>::empty());
    None
}

#[verifier::rlimit(60)]
fn handle_post_view_input(key: KeyEvent, app: &mut App)
    ensures
        post_view_key(*old(app), *final(app), key),
{
    match key.code {
        KeyCode::Up => {
            app.forum.move_post_selection(-1);
            app.play(SoundType::ChangeChannel);
        },
        KeyCode::Down => {
            app.forum.move_post_selection(1);
            app.play(SoundType::ChangeChannel);
        },
        KeyCode::PageUp => {
            app.forum.scroll_posts(-1, 3);
            app.play(SoundType::Scroll);
        },
        KeyCode::PageDown => {
            app.forum.scroll_posts(1, 3);
            app.play(SoundType::Scroll);
        },
        KeyCode::Home | KeyCode::End => {
            let len = match app.forum.get_current_thread() {
                Some(t) => t.posts.len(),
                None => 0,
            };
            if len > 0 {
                if key.code == KeyCode::Home {
                    app.forum.selected_post_index = Some(0);
                    app.forum.scroll_offset = 0;
                } else {
                    app.forum.selected_post_index = Some(len - 1);
                    app.forum.auto_scroll_to_selected_post();
                }
                app.forum.selected_reply_index = None;
                app.play(SoundType::ChangeChannel);
            }
        },
        KeyCode::Left => {
            if app.forum.selected_reply_index.is_some() {
                app.forum.move_reply_selection(-1);
                app.play(SoundType::ChangeChannel);
            }
        },
        KeyCode::Right => {
            let count = match app.forum.get_selected_post() {
                Some(post) => app.forum.get_replies_to_post(post.id).len(),
                None => 0,
            };
            if count > 0 {
                if app.forum.selected_reply_index.is_none() {
                    app.forum.selected_reply_index = Some(0);
                } else {
                    app.forum.move_reply_selection(1);
                }
                app.play(SoundType::ChangeChannel);
            }
        },
        KeyCode::Enter => {
            if app.forum.show_reply_context {
                let ghost f0 = app.forum;
                let jumped = app.forum.jump_to_replied_post();
                app.play(if jumped { SoundType::PopupOpen } else { SoundType::Error });
                assert(ForumState::jumped_to_replied(f0, app.forum, jumped));
            } else {
                let reply_id = match app.forum.get_selected_reply_post() {
                    Some(reply) => Some(reply.id),
                    None => None,
                };
                match reply_id {
                    Some(id) => {
                        match post_position(app, id) {
                            Some(idx) => {
                                app.forum.selected_post_index = Some(idx);
                                app.forum.selected_reply_index = None;
                                app.forum.scroll_to_post(idx);
                                app.play(SoundType::PopupOpen);
                            },
                            None => {},
                        }
                    },
                    None => {},
                }
            }
        },
        KeyCode::Char('c') | KeyCode::Char('C') => {
            app.forum.toggle_reply_context();
            if app.forum.show_reply_context {
                app.play(SoundType::PopupOpen);
            } else {
                app.play(SoundType::PopupClose);
            }
        },
        KeyCode::Char('r') | KeyCode::Char('R') => {
            if key.modifiers.alt {
                app.forum.set_reply_target(None);
            } else {
                let target = match app.forum.get_selected_post() {
                    Some(post) => Some(post.id),
                    None => None,
                };
                app.forum.set_reply_target(target);
            }
            app.enter_input_mode(InputMode::NewPostContent);
        },
        KeyCode::Char('d') | KeyCode::Char('D') => {
            if key.modifiers.alt && is_admin_user(app) {
                let pid = match app.forum.get_selected_post() {
                    Some(post) => Some(post.id),
                    None => None,
                };
                match pid {
                    Some(id) => {
                        app.send_to_server(ClientMessage::DeletePost(id));
                        app.set_notification("Post deletion requested".to_string(), Some(2000), false);
                    },
                    None => {},
                }
            }
        },
        KeyCode::Esc => {
            if app.forum.selected_reply_index.is_some() {
                app.forum.selected_reply_index = None;
                app.play(SoundType::PopupClose);
            } else {
                app.ui.set_mode(AppMode::ThreadList);
            }
        },
        _ => {},
    }
}

/// A key on a forum screen, by screen.
pub open spec fn forum_key(o: App, n: App, key: KeyEvent) -> bool {
    match o.ui.mode {
        AppMode::ForumList => forum_list_key(o, n, key),
        AppMode::ThreadList => thread_list_key(o, n, key),
        AppMode::PostView => post_view_key(o, n, key),
        _ => n == o,
    }
}

/// Handles a key on a forum screen (see `forum_key`).
pub fn handle_forum_input(key: KeyEvent, app: &mut App)
    ensures
        forum_key(*old(app), *final(app), key),
{
    match app.ui.mode {
        AppMode::ForumList => handle_forum_list_input(key, app),
        AppMode::ThreadList => handle_thread_list_input(key, app),
        AppMode::PostView => handle_post_view_input(key, app),
        _ => {},
    }
}

} // verus!
