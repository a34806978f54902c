//! The application: all the state, and what it does on a tick, on a message
//! from the server and on a request of the user. Talking to the server,
//! playing sounds and showing desktop notifications are left to the front
//! end as effects, queued in the order in which they arise.

use vstd::prelude::*;
use crate::appearance::{BackgroundManager, ThemeManager};
use crate::error::{AppError, AppResult};
use crate::model::{ChatMessageWithMeta, ClientMessage, User};
use crate::notify::DesktopNotification;
use crate::prefs::{global_prefs, GlobalPrefs, GlobalPrefsCell};
use crate::services::chat::{
    ChatService, exact_emoji, message_lines, replace_last_word, emoji_code_span, find_exact_emoji, typed_word,
    typed_word_of, mention_suggestions_spec, emoji_suggestions_spec, preloaded, cleaned,
    lemma_preloaded_same_people,
};
use crate::text::views;
use crate::services::image::ImageService;
use crate::services::image::{ImageCacheStats, ImageCache, image_data_problem, CacheKey, ImageView};
use crate::services::message::{MessageService, message_is_valid, is_command, command_words};
use crate::services::profile::{ProfileService, image_field_value, opt_bytes, profile_data_ok, profile_data_error};
use crate::sound::SoundType;
use crate::state::AppConfig;
use crate::state::auth::{AuthState, InputMode};
use crate::state::chat::{ChatState, ChatTarget, SidebarTab, current_draft, draft_of};
use crate::state::forum::ForumState;
use crate::state::notification::{NotificationState, close_tick};
use crate::state::profile::ProfileState;
use crate::state::ui::{AppMode, UiState};
use crate::text::{chars_of, string_of, trim};

verus! {

broadcast use vstd::std_specs::hash::group_hash_axioms;

/// Work for the front end, queued by the application.
#[derive(Debug)]
pub enum Effect {
    /// Send a message to the server.
    Send(ClientMessage),
    /// Play a sound (when sound effects are enabled).
    Play(SoundType),
    /// Show a desktop notification (when they are enabled).
    Desktop(DesktopNotification),
    /// Forget the terminal images made from a user's avatar.
    InvalidateAvatar(u128),
    /// Write the global preferences to their file.
    SavePrefs,
}

/// The number of ticks between two clean-ups of the image cache (five
/// minutes at ten ticks a second).
pub const CACHE_CLEANUP_TICKS: u64 = 3000;

/// Main application state and controller.
pub struct App {
    pub auth: AuthState,
    pub chat: ChatState,
    pub forum: ForumState,
    pub profile: ProfileState,
    pub notifications: NotificationState,
    pub ui: UiState,
    pub chat_service: ChatService,
    pub background_manager: BackgroundManager,
    pub theme_manager: ThemeManager,
    pub config: AppConfig,
    pub prefs: GlobalPrefsCell,
    /// What the front end still has to do, oldest first.
    pub effects: Vec<Effect>,
}

/// `n` shows `text` for `ms` from tick `tick`, in the minimal style or
/// not, and keeps its history.
pub open spec fn shows(o: NotificationState, n: NotificationState, text: Seq<char>, ms: Option<u64>, minimal: bool, tick: u64) -> bool {
    &&& n.current_notification matches Some((m, c, mi)) && m@ == text && c == close_tick(tick, ms) && mi == minimal
    &&& n.notifications == o.notifications
    &&& n.notification_history_complete == o.notification_history_complete
}

/// The image cache service is unchanged when it has no cache, and keeps
/// its cache and settings when it has one.
pub open spec fn service_kept(o: ChatService, n: ChatService) -> bool {
    &&& o.image_cache is None ==> n == o
    &&& o.image_cache is Some ==> n.image_cache is Some && n.image_cache->0.settings() == o.image_cache->0.settings()
}

/// Whether the front end carries out effect `e` under preferences `p`:
/// a sound only with sound effects on, a desktop notification only with
/// desktop notifications on, anything else always.
pub open spec fn allowed(e: Effect, p: GlobalPrefs) -> bool {
    match e {
        Effect::Play(_) => p.sound_effects_enabled,
        Effect::Desktop(_) => p.desktop_notifications_enabled,
        _ => true,
    }
}

/// The effects of the list that the preferences allow, in order.
pub open spec fn allowed_effects(s: Seq<Effect>, p: GlobalPrefs) -> Seq<Effect>
    decreases s.len(),
{
    if s.len() == 0 {
        s
    } else if allowed(s.last(), p) {
        allowed_effects(s.drop_last(), p).push(s.last())
    } else {
        allowed_effects(s.drop_last(), p)
    }
}

/// The effects of `n` are those of `o` followed by `added`.
pub open spec fn queued(o: App, n: App, added: Seq<Effect>) -> bool {
    n.effects@ == o.effects@ + added
}

/// What `select_and_load_first_chat` does: on the server tab, selects the
/// first server and channel where none is selected and opens the selected
/// channel, asking for its users and messages; on the direct-message tab,
/// selects the first conversation where none is and opens the selected
/// one, asking for its messages and marking it read. With nothing to open
/// the selection and the conversation are cleared.
pub open spec fn loaded_first_chat(o: App, n: App) -> bool {
    let c = o.chat;
    &&& n == (App { chat: n.chat, chat_service: n.chat_service, effects: n.effects, ..o })
    &&& service_kept(o.chat_service, n.chat_service)
    &&& match c.sidebar_tab {
        SidebarTab::Servers => if c.servers@.len() == 0 {
            n.chat == (ChatState { selected_server: None, selected_channel: None, current_chat_target: None, ..c })
                && n.effects == o.effects && n.chat_service == o.chat_service
        } else {
            let s = match c.selected_server { Some(s) => s, None => 0 };
            if s >= c.servers@.len() {
                n.chat == (ChatState { selected_server: Some(s), ..c }) && n.effects == o.effects
                    && n.chat_service == o.chat_service
            } else {
                let server = c.servers@[s as int];
                if server.channels@.len() == 0 {
                    n.chat == (ChatState { selected_server: Some(s), selected_channel: None, current_chat_target: None, ..c })
                        && n.effects == o.effects && n.chat_service == o.chat_service
                } else {
                    let k = match c.selected_channel { Some(k) => k, None => 0 };
                    if k >= server.channels@.len() {
                        n.chat == (ChatState { selected_server: Some(s), selected_channel: Some(k), ..c })
                            && n.effects == o.effects && n.chat_service == o.chat_service
                    } else {
                        let cid = server.channels@[k as int].id;
                        &&& preloaded(o.chat_service, n.chat_service, n.chat)
                        &&& n.chat == (ChatState {
                            selected_server: Some(s),
                            selected_channel: Some(k),
                            current_chat_target: Some(ChatTarget::Channel { server_id: server.id, channel_id: cid }),
                            chat_scroll_offset: 0,
                            ..c
                        })
                        &&& queued(o, n, seq![
                            Effect::Send(ClientMessage::GetChannelUserList { channel_id: cid }),
                            Effect::Send(ClientMessage::GetChannelMessages { channel_id: cid, before: None }),
                        ])
                    }
                }
            }
        },
        SidebarTab::DMs => if c.dm_user_list@.len() == 0 {
            n.chat == (ChatState { selected_dm_user: None, current_chat_target: None, ..c })
                && n.effects == o.effects && n.chat_service == o.chat_service
        } else {
            let i = match c.selected_dm_user { Some(i) => i, None => 0 };
            if i >= c.dm_user_list@.len() {
                n.chat == (ChatState { selected_dm_user: Some(i), ..c }) && n.effects == o.effects
                    && n.chat_service == o.chat_service
            } else {
                let uid = c.dm_user_list@[i as int].id;
                &&& preloaded(o.chat_service, n.chat_service, n.chat)
                &&& n.chat == (ChatState {
                    selected_dm_user: Some(i),
                    current_chat_target: Some(ChatTarget::DM { user_id: uid }),
                    chat_scroll_offset: 0,
                    unread_dm_conversations: n.chat.unread_dm_conversations,
                    ..c
                })
                &&& n.chat.unread_dm_conversations@ == c.unread_dm_conversations@.remove(uid)
                &&& queued(o, n, seq![Effect::Send(ClientMessage::GetDirectMessages { user_id: uid, before: None })])
            }
        },
    }
}

/// The drafts of `n` are those of `o` with the draft of the conversation
/// shown (if any) set to `v`; nothing else of the chat state changes.
pub open spec fn draft_set(o: ChatState, n: ChatState, v: Seq<char>) -> bool {
    &&& n == (ChatState { chat_input_drafts: n.chat_input_drafts, ..o })
    &&& forall|u: ChatTarget| #[trigger] draft_of(n.chat_input_drafts@, u) == match o.current_chat_target {
        Some(t) => if u == t { v } else { draft_of(o.chat_input_drafts@, u) },
        None => draft_of(o.chat_input_drafts@, u),
    }
}


/// The text a message is sent with: the draft, trimmed.
pub open spec fn outgoing_text(c: ChatState) -> Seq<char> {
    trim(current_draft(c))
}

/// The command of a direct message such as `/accept`, in lower case.
pub open spec fn dm_command(v: Seq<char>) -> Option<Seq<char>> {
    if is_command(v) { Some(crate::text::lowercase(command_words(v)[0])) } else { None }
}

/// What `send_message` does with a valid draft: on a channel, sends it and
/// plays the channel sound; in a direct conversation, `/accept` and
/// `/decline` answer the other person's server invitation (with a
/// notification and the select sound), anything else is sent with the
/// sent sound. The draft is emptied; without a conversation nothing happens.
pub open spec fn sent_message(o: App, n: App) -> bool {
    let v = outgoing_text(o.chat);
    let k = o.effects@.len();
    match o.chat.current_chat_target {
        None => n == o,
        Some(ChatTarget::Channel { channel_id, .. }) => {
            &&& n == (App { chat: n.chat, effects: n.effects, ..o })
            &&& draft_set(o.chat, n.chat, Seq::empty())
            &&& n.effects@.len() == k + 2
            &&& n.effects@.take(k as int) == o.effects@
            &&& n.effects@[k as int] matches Effect::Send(ClientMessage::SendChannelMessage { channel_id: cid, content })
                && cid == channel_id && content@ == v
            &&& n.effects@[k as int + 1] == Effect::Play(SoundType::SendChannelMessage)
        },
        Some(ChatTarget::DM { user_id }) => {
            &&& draft_set(o.chat, n.chat, Seq::empty())
            &&& if dm_command(v) == Some("accept"@) || dm_command(v) == Some("decline"@) {
                let accept = dm_command(v) == Some("accept"@);
                &&& n == (App { chat: n.chat, effects: n.effects, notifications: n.notifications, ..o })
                &&& shows(o.notifications, n.notifications,
                    if accept { "Server invite accepted!"@ } else { "Server invite declined."@ }, Some(2000), false, o.ui.tick_count)
                &&& queued(o, n, seq![
                    Effect::Send(if accept {
                        ClientMessage::AcceptServerInviteFromUser { from_user_id: user_id }
                    } else {
                        ClientMessage::DeclineServerInviteFromUser { from_user_id: user_id }
                    }),
                    Effect::Play(SoundType::Select),
                ])
            } else {
                &&& n == (App { chat: n.chat, effects: n.effects, ..o })
                &&& n.effects@.len() == k + 2
                &&& n.effects@.take(k as int) == o.effects@
                &&& n.effects@[k as int] matches Effect::Send(ClientMessage::SendDirectMessage { to, content })
                    && to == user_id && content@ == v
                &&& n.effects@[k as int + 1] == Effect::Play(SoundType::MessageSent)
            }
        },
    }
}

/// The view of an optional string.
pub open spec fn opt_text(s: Option<String>) -> Option<Seq<char>> {
    match s {
        Some(t) => Some(t@),
        None => None,
    }
}

/// The profile update that `save_profile` sends for the edited fields.
pub open spec fn profile_update(p: ProfileState, m: ClientMessage, pic_file: Option<Seq<u8>>, banner_file: Option<Seq<u8>>) -> bool {
    m matches ClientMessage::UpdateProfile { bio, url1, url2, url3, location, profile_pic, cover_banner }
        && opt_text(bio) == Some(p.edit_bio@)
        && opt_text(url1) == Some(p.edit_url1@)
        && opt_text(url2) == Some(p.edit_url2@)
        && opt_text(url3) == Some(p.edit_url3@)
        && opt_text(location) == Some(p.edit_location@)
        && opt_text(profile_pic) == image_field_value(p.edit_profile_pic@, pic_file)
        && opt_text(cover_banner) == image_field_value(p.edit_cover_banner@, banner_file)
}

/// The positions of the first users named by each of `names`, in order
/// (names without such a user are skipped).
pub open spec fn name_positions(users: Seq<User>, names: Seq<Seq<char>>) -> Seq<usize>
    decreases names.len(),
{
    if names.len() == 0 {
        Seq::empty()
    } else {
        let rest = name_positions(users, names.drop_last());
        match first_named(users, names.last()) {
            Some(i) => rest.push(i as usize),
            None => rest,
        }
    }
}

/// The position of the first user with the name.
pub open spec fn first_named(users: Seq<User>, name: Seq<char>) -> Option<int>
    decreases users.len(),
{
    if users.len() == 0 {
        None
    } else if users[0].username@ == name {
        Some(0)
    } else {
        match first_named(users.drop_first(), name) {
            Some(i) => Some(i + 1),
            None => None,
        }
    }
}

/// The name of the selected channel of the selected server, if both exist.
pub open spec fn selected_channel_name(c: ChatState) -> Option<Seq<char>> {
    match (c.selected_server, c.selected_channel) {
        (Some(s), Some(k)) => if s < c.servers@.len() && k < c.servers@[s as int].channels@.len() {
            Some(c.servers@[s as int].channels@[k as int].name@)
        } else {
            None
        },
        _ => None,
    }
}

/// The name of the selected direct-message user, if it exists.
pub open spec fn selected_dm_name(c: ChatState) -> Option<Seq<char>> {
    match c.selected_dm_user {
        Some(i) => if i < c.dm_user_list@.len() { Some(c.dm_user_list@[i as int].username@) } else { None },
        None => None,
    }
}

/// The title of the chat pane.
pub open spec fn chat_title(c: ChatState) -> Seq<char> {
    match c.current_chat_target {
        Some(ChatTarget::Channel { .. }) => "Channel // #"@ + match selected_channel_name(c) {
            Some(n) => n,
            None => "unknown"@,
        },
        Some(ChatTarget::DM { .. }) => "Conversation // @"@ + match selected_dm_name(c) {
            Some(n) => n,
            None => "unknown"@,
        },
        None => "Chat"@,
    }
}

/// What `update_mention_suggestions` does.
pub open spec fn mentions_updated(o: App, n: App) -> bool {
                let input = current_draft(o.chat);
                let names = mention_suggestions_spec(input, o.chat.channel_userlist@);
                &&& n == (App { chat: n.chat, ..o })
                &&& names.len() == 0 ==> n.chat.mention_suggestions@.len() == 0 && n.chat == (ChatState {
                    mention_suggestions: n.chat.mention_suggestions,
                    mention_prefix: None,
                    mention_selected: 0,
                    ..o.chat
                })
                &&& names.len() > 0 ==> n.chat == (ChatState {
                    mention_suggestions: n.chat.mention_suggestions,
                    mention_prefix: n.chat.mention_prefix,
                    mention_selected: 0,
                    ..o.chat
                }) && n.chat.mention_suggestions@ == name_positions(o.chat.channel_userlist@, names)
                    && opt_text(n.chat.mention_prefix) == typed_word(input, '@', true)
            }

/// What `apply_selected_mention` does.
pub open spec fn mention_applied(o: App, n: App) -> bool {
                let c = o.chat;
                if c.mention_prefix is Some && c.mention_selected < c.mention_suggestions@.len()
                    && c.mention_suggestions@[c.mention_selected as int] < c.channel_userlist@.len() {
                    let user = c.channel_userlist@[c.mention_suggestions@[c.mention_selected as int] as int];
                    let new_input = replace_last_word(current_draft(c), '@', c.mention_prefix->0@, seq!['@'] + user.username@);
                    &&& n == (App { chat: n.chat, ..o })
                    &&& n.chat.mention_suggestions@.len() == 0
                    &&& n.chat == (ChatState {
                        chat_input_drafts: n.chat.chat_input_drafts,
                        mention_suggestions: n.chat.mention_suggestions,
                        mention_prefix: None,
                        mention_selected: 0,
                        ..c
                    })
                    &&& forall|u: ChatTarget| #[trigger] draft_of(n.chat.chat_input_drafts@, u) == match c.current_chat_target {
                        Some(t) => if u == t { new_input } else { draft_of(c.chat_input_drafts@, u) },
                        None => draft_of(c.chat_input_drafts@, u),
                    }
                } else {
                    n == o
                }
            }

/// What `update_emoji_suggestions` does.
pub open spec fn emojis_updated(o: App, n: App) -> bool {
                let c = o.chat;
                let input = current_draft(c);
                &&& n == (App { chat: n.chat, ..o })
                &&& if exact_emoji(input) is Some {
                    let span = emoji_code_span(input)->0;
                    let found = exact_emoji(input)->0;
                    let new_input = input.take(span.0) + found.0 + input.skip(span.1);
                    &&& n.chat.emoji_suggestions@.len() == 0
                    &&& n.chat == (ChatState {
                        chat_input_drafts: n.chat.chat_input_drafts,
                        emoji_suggestions: n.chat.emoji_suggestions,
                        emoji_prefix: None,
                        emoji_selected: 0,
                        ..c
                    })
                    &&& forall|u: ChatTarget| #[trigger] draft_of(n.chat.chat_input_drafts@, u) == match c.current_chat_target {
                        Some(t) => if u == t { new_input } else { draft_of(c.chat_input_drafts@, u) },
                        None => draft_of(c.chat_input_drafts@, u),
                    }
                } else if emoji_suggestions_spec(input).len() == 0 {
                    n.chat.emoji_suggestions@.len() == 0 && n.chat == (ChatState {
                        emoji_suggestions: n.chat.emoji_suggestions,
                        emoji_prefix: None,
                        emoji_selected: 0,
                        ..c
                    })
                } else {
                    &&& n.chat == (ChatState {
                        emoji_suggestions: n.chat.emoji_suggestions,
                        emoji_prefix: n.chat.emoji_prefix,
                        emoji_selected: 0,
                        ..c
                    })
                    &&& views(n.chat.emoji_suggestions@) == emoji_suggestions_spec(input)
                    &&& opt_text(n.chat.emoji_prefix) == typed_word(input, ':', false)
                }
            }

/// What `apply_selected_emoji` does.
pub open spec fn emoji_applied(o: App, n: App) -> bool {
                let c = o.chat;
                if c.emoji_prefix is Some && c.emoji_selected < c.emoji_suggestions@.len() {
                    let new_input = replace_last_word(current_draft(c), ':', c.emoji_prefix->0@,
                        c.emoji_suggestions@[c.emoji_selected as int]@);
                    &&& n == (App { chat: n.chat, ..o })
                    &&& n.chat.emoji_suggestions@.len() == 0
                    &&& n.chat == (ChatState {
                        chat_input_drafts: n.chat.chat_input_drafts,
                        emoji_suggestions: n.chat.emoji_suggestions,
                        emoji_prefix: None,
                        emoji_selected: 0,
                        ..c
                    })
                    &&& forall|u: ChatTarget| #[trigger] draft_of(n.chat.chat_input_drafts@, u) == match c.current_chat_target {
                        Some(t) => if u == t { new_input } else { draft_of(c.chat_input_drafts@, u) },
                        None => draft_of(c.chat_input_drafts@, u),
                    }
                } else {
                    n == o
                }
            }

impl App {
    /// A new application: every part of its state as a new session has it
    /// (logged out on the login screen, no servers, messages, drafts,
    /// suggestions or notifications), an empty image cache of the default
    /// configuration, the first theme and background, the preferences not
    /// yet loaded and nothing queued.
    pub fn new() -> (r: App)
        ensures
            r.auth.is_fresh(),
            r.chat.is_fresh(),
            r.forum.is_fresh(),
            r.profile.is_fresh(),
            r.notifications.is_fresh(),
            r.ui.is_fresh(),
            r.chat_service.image_cache is Some,
            r.chat_service.image_cache->0@ == Map::<CacheKey, ImageView>::empty(),
            r.chat_service.image_cache->0.size_counter() == 0,
            r.chat_service.image_cache->0.settings().max_cache_size_mb == 100,
            r.chat_service.image_cache->0.settings().max_entries == 1000,
            r.chat_service.image_cache->0.settings().default_ttl_seconds == 3600,
            r.config.max_message_length == 500,
            r.config.scroll_lines_per_page == 20,
            r.config.notification_timeout_ms == 4000,
            r.theme_manager.current_index == 0,
            r.background_manager.current_index == 0,
            r.prefs.value is None,
            r.effects@.len() == 0,
    {
        let cache = ImageCache::with_default_config();
        App {
            auth: AuthState::new(),
            chat: ChatState::new(),
            forum: ForumState::new(),
            profile: ProfileState::new(),
            notifications: NotificationState::new(),
            ui: UiState::new(),
            chat_service: ChatService::with_image_cache(cache),
            background_manager: BackgroundManager::new(),
            theme_manager: ThemeManager::new(),
            config: AppConfig::default_config(),
            prefs: GlobalPrefsCell::new(),
            effects: Vec::new(),
        }
    }

    /// Queues a message for the server.
    pub fn send_to_server(&mut self, msg: ClientMessage)
        ensures
            *final(self) == (App { effects: final(self).effects, ..*old(self) }),
            queued(*old(self), *final(self), seq![Effect::Send(msg)]),
    {
        let ghost before = self.effects@;
        self.effects.push(Effect::Send(msg));
        assert(self.effects@ =~= before + seq![Effect::Send(msg)]);
    }

    /// Queues a sound; `take_effects` hands it on only when sound effects
    /// are on.
    pub fn play(&mut self, sound: SoundType)
        ensures
            *final(self) == (App { effects: final(self).effects, ..*old(self) }),
            queued(*old(self), *final(self), seq![Effect::Play(sound)]),
    {
        let ghost before = self.effects@;
        self.effects.push(Effect::Play(sound));
        assert(self.effects@ =~= before + seq![Effect::Play(sound)]);
    }

    /// Queues a desktop notification; `take_effects` hands it on only when
    /// desktop notifications are on.
    pub fn desktop(&mut self, n: DesktopNotification)
        ensures
            *final(self) == (App { effects: final(self).effects, ..*old(self) }),
            queued(*old(self), *final(self), seq![Effect::Desktop(n)]),
    {
        let ghost before = self.effects@;
        self.effects.push(Effect::Desktop(n));
        assert(self.effects@ =~= before + seq![Effect::Desktop(n)]);
    }

    /// Hands the queued effects to the front end, oldest first, keeping
    /// sounds only when sound effects are on and desktop notifications only
    /// when they are on (the preferences must be loaded).
    pub fn take_effects(&mut self) -> (r: Vec<Effect>)
        requires
            old(self).prefs.value is Some,
        ensures
            r@ == allowed_effects(old(self).effects@, old(self).prefs.value->0),
            final(self).effects@.len() == 0,
            *final(self) == (App { effects: final(self).effects, ..*old(self) }),
    {
        let p = *global_prefs(&self.prefs);
        let mut taken: Vec<Effect> = Vec::new();
        std::mem::swap(&mut taken, &mut self.effects);
        let ghost all = taken@;
        let ghost mut j: int = 0;
        let mut r: Vec<Effect> = Vec::new();
        assert(all.take(0) =~= Seq::<Effect>::empty());
        assert(all.skip(0) =~= all);
        while taken.len() > 0
            invariant
                0 <= j <= all.len(),
                taken@ == all.skip(j),
                r@ == allowed_effects(all.take(j), p),
            decreases taken@.len(),
        {
            let e = taken.remove(0);
            proof {
                assert(e == all[j]);
                assert(all.take(j + 1).drop_last() =~= all.take(j));
                assert(all.take(j + 1).last() == all[j]);
                assert(taken@ =~= all.skip(j + 1));
            }
            let keep = match &e {
                Effect::Play(_) => p.sound_effects_enabled,
                Effect::Desktop(_) => p.desktop_notifications_enabled,
                _ => true,
            };
            if keep {
                r.push(e);
            }
            proof {
                j = j + 1;
            }
        }
        assert(all.take(j) =~= all);
        r
    }

    /// Shows a message over the screen, closing after `ms` ticks when given.
    pub fn set_notification(&mut self, message: String, ms: Option<u64>, minimal: bool)
        ensures
            *final(self) == (App { notifications: final(self).notifications, ..*old(self) }),
            final(self).notifications.current_notification == Some((message, close_tick(old(self).ui.tick_count, ms), minimal)),
            final(self).notifications.notifications == old(self).notifications.notifications,
            final(self).notifications.notification_history_complete == old(self).notifications.notification_history_complete,
    {
        self.notifications.set_notification(message, ms, minimal, self.ui.tick_count);
    }

    /// Counts a tick, closes the notification whose time is up, and every
    /// 3000 ticks drops the expired images of the cache.
    pub fn on_tick(&mut self)
        ensures
            final(self).ui == (UiState { tick_count: if old(self).ui.tick_count == u64::MAX {
                u64::MAX
            } else {
                (old(self).ui.tick_count + 1) as u64
            }, ..old(self).ui }),
            final(self).notifications.notifications == old(self).notifications.notifications,
            final(self).notifications.current_notification == match old(self).notifications.current_notification {
                Some((m, Some(c), mi)) => if final(self).ui.tick_count >= c { None } else { Some((m, Some(c), mi)) },
                other => other,
            },
            final(self).ui.tick_count % CACHE_CLEANUP_TICKS != 0 ==> final(self).chat_service == old(self).chat_service,
            final(self).ui.tick_count % CACHE_CLEANUP_TICKS == 0 ==> exists|removed: Option<usize>|
                #[trigger] cleaned(old(self).chat_service, final(self).chat_service, removed),
            service_kept(old(self).chat_service, final(self).chat_service),
            *final(self) == (App {
                ui: final(self).ui,
                notifications: final(self).notifications,
                chat_service: final(self).chat_service,
                ..*old(self)
            }),
    {
        self.ui.tick();
        if self.notifications.should_close_notification(self.ui.tick_count) {
            self.notifications.clear_notification();
        }
        if self.ui.tick_count % CACHE_CLEANUP_TICKS == 0 {
            let _ = self.chat_service.cleanup_cache();
        }
    }

    /// Opens the popup input of the given kind and closes the notification.
    pub fn enter_input_mode(&mut self, mode: InputMode)
        ensures
            final(self).auth.current_user == old(self).auth.current_user,
            final(self).auth.input_mode == Some(mode),
            final(self).auth.current_input@ == Seq::<char>::empty(),
            final(self).auth.password_input@ == Seq::<char>::empty(),
            final(self).ui == (UiState { mode: AppMode::Input, ..old(self).ui }),
            final(self).notifications.current_notification is None,
            final(self).notifications.notifications == old(self).notifications.notifications,
            final(self).notifications.notification_history_complete == old(self).notifications.notification_history_complete,
            *final(self) == (App {
                auth: final(self).auth,
                ui: final(self).ui,
                notifications: final(self).notifications,
                ..*old(self)
            }),
    {
        self.auth.set_input_mode(mode);
        self.ui.set_mode(AppMode::Input);
        self.notifications.clear_notification();
    }

    /// The display lines of the conversation shown.
    pub fn get_current_message_list(&self) -> (r: Vec<ChatMessageWithMeta>)
        ensures
            r@.len() == message_lines(self.chat, self.auth.current_user).len(),
            forall|i: int| 0 <= i < r@.len() ==> #[trigger] r@[i]@ == message_lines(self.chat, self.auth.current_user)[i],
    {
        ChatService::build_message_list(&self.chat, self.auth.current_user.as_ref())
    }

    /// The draft of the conversation shown.
    pub fn get_current_input(&self) -> (r: &str)
        ensures
            r@ == current_draft(self.chat),
    {
        self.chat.get_current_input()
    }

    /// Sets the draft of the conversation shown.
    pub fn set_current_input(&mut self, value: String)
        ensures
            draft_set(old(self).chat, final(self).chat, value@),
            *final(self) == (App { chat: final(self).chat, ..*old(self) }),
    {
        self.chat.set_current_input(value);
    }

    /// Empties the draft of the conversation shown.
    pub fn clear_current_input(&mut self)
        ensures
            draft_set(old(self).chat, final(self).chat, Seq::empty()),
            *final(self) == (App { chat: final(self).chat, ..*old(self) }),
    {
        self.chat.clear_current_input();
    }

    /// Shows the conversation and preloads the avatars of its people.
    pub fn set_current_chat_target(&mut self, target: ChatTarget)
        ensures
            final(self).chat == (ChatState { current_chat_target: Some(target), ..old(self).chat }),
            preloaded(old(self).chat_service, final(self).chat_service, final(self).chat),
            *final(self) == (App { chat: final(self).chat, chat_service: final(self).chat_service, ..*old(self) }),
    {
        self.chat.set_current_chat_target(target);
        self.chat_service.preload_conversation_images(&self.chat);
    }

    /// The statistics of the image cache.
    pub fn get_cache_stats(&self) -> (r: Option<ImageCacheStats>)
        ensures
            r is Some <==> self.chat_service.image_cache is Some,
            r matches Some(st) ==> st.total_entries == self.chat_service.image_cache->0@.len()
                && st.total_size_bytes == self.chat_service.image_cache->0.size_counter()
                && (exists|now: u64| st.expired_entries == #[trigger] self.chat_service.image_cache->0.expired_count_at(now))
                && st.total_access_count == if self.chat_service.image_cache->0.access_sum() > u64::MAX {
                    u64::MAX as nat
                } else {
                    self.chat_service.image_cache->0.access_sum()
                },
    {
        self.chat_service.get_cache_stats()
    }

    /// Drops the expired images of the cache; the number dropped (0
    /// without a cache).
    pub fn cleanup_cache(&mut self) -> (r: usize)
        ensures
            cleaned(old(self).chat_service, final(self).chat_service,
                if old(self).chat_service.image_cache is Some { Some(r) } else { None }),
            service_kept(old(self).chat_service, final(self).chat_service),
            old(self).chat_service.image_cache is None ==> r == 0,
            *final(self) == (App { chat_service: final(self).chat_service, ..*old(self) }),
    {
        match self.chat_service.cleanup_cache() {
            Some(n) => n,
            None => 0,
        }
    }

    /// Empties the image cache.
    pub fn clear_cache(&mut self) -> (r: Result<(), String>)
        ensures
            r is Ok,
            old(self).chat_service.image_cache is None ==> *final(self) == *old(self),
            old(self).chat_service.image_cache is Some ==> final(self).chat_service.image_cache is Some
                && final(self).chat_service.image_cache->0@ == Map::<CacheKey, ImageView>::empty()
                && final(self).chat_service.image_cache->0.size_counter() == 0
                && final(self).chat_service.image_cache->0.settings() == old(self).chat_service.image_cache->0.settings(),
            *final(self) == (App { chat_service: final(self).chat_service, ..*old(self) }),
    {
        match self.chat_service.image_cache.take() {
            Some(mut cache) => {
                let r = cache.clear();
                self.chat_service.image_cache = Some(cache);
                r
            },
            None => Ok(()),
        }
    }

    /// Opens the first (or the selected) conversation of the sidebar tab
    /// shown (see `loaded_first_chat`).
    pub fn select_and_load_first_chat(&mut self)
        ensures
            loaded_first_chat(*old(self), *final(self)),
    {
        match self.chat.sidebar_tab {
            SidebarTab::Servers => {
                if self.chat.servers.len() == 0 {
                    self.chat.selected_server = None;
                    self.chat.selected_channel = None;
                    self.chat.current_chat_target = None;
                    return;
                }
                if self.chat.selected_server.is_none() {
                    self.chat.selected_server = Some(0);
                }
                let s = match self.chat.selected_server { Some(s) => s, None => 0 };
                if s >= self.chat.servers.len() {
                    return;
                }
                if self.chat.servers[s].channels.len() == 0 {
                    self.chat.selected_channel = None;
                    self.chat.current_chat_target = None;
                    return;
                }
                if self.chat.selected_channel.is_none() {
                    self.chat.selected_channel = Some(0);
                }
                let c = match self.chat.selected_channel { Some(c) => c, None => 0 };
                if c >= self.chat.servers[s].channels.len() {
                    return;
                }
                let server_id = self.chat.servers[s].id;
                let channel_id = self.chat.servers[s].channels[c].id;
                self.set_current_chat_target(ChatTarget::Channel { server_id, channel_id });
                let ghost mid = self.chat;
                let ghost service = self.chat_service;
                let ghost e0 = self.effects@;
                self.send_to_server(ClientMessage::GetChannelUserList { channel_id });
                self.send_to_server(ClientMessage::GetChannelMessages { channel_id, before: None });
                assert(self.effects@ =~= e0 + seq![
                    Effect::Send(ClientMessage::GetChannelUserList { channel_id }),
                    Effect::Send(ClientMessage::GetChannelMessages { channel_id, before: None }),
                ]);
                self.chat.reset_scroll_offset();
                proof {
                    lemma_preloaded_same_people(old(self).chat_service, service, mid, self.chat);
                }
            },
            SidebarTab::DMs => {
                if self.chat.dm_user_list.len() == 0 {
                    self.chat.selected_dm_user = None;
                    self.chat.current_chat_target = None;
                    return;
                }
                if self.chat.selected_dm_user.is_none() {
                    self.chat.selected_dm_user = Some(0);
                }
                let i = match self.chat.selected_dm_user { Some(i) => i, None => 0 };
                if i >= self.chat.dm_user_list.len() {
                    return;
                }
                let user_id = self.chat.dm_user_list[i].id;
                self.set_current_chat_target(ChatTarget::DM { user_id });
                let ghost mid = self.chat;
                let ghost service = self.chat_service;
                self.send_to_server(ClientMessage::GetDirectMessages { user_id, before: None });
                self.chat.unread_dm_conversations.remove(&user_id);
                self.chat.reset_scroll_offset();
                proof {
                    lemma_preloaded_same_people(old(self).chat_service, service, mid, self.chat);
                }
            },
        }
    }

    /// Sends the draft of the conversation shown (see `sent_message`);
    /// refuses an empty or over-long draft with a validation error and
    /// changes nothing.
    pub fn send_message(&mut self) -> (r: AppResult<()>)
        ensures
            !message_is_valid(current_draft(old(self).chat)) ==> *final(self) == *old(self)
                && (r matches Err(AppError::Validation(m)) && m@ == (if trim(current_draft(old(self).chat)).len() == 0 {
                    "Message cannot be empty"@
                } else {
                    "Message too long (max 2000 characters)"@
                })),
            message_is_valid(current_draft(old(self).chat)) ==> r is Ok && sent_message(*old(self), *final(self)),
    {
        let content = self.get_current_input().to_string();
        let validated = match MessageService::validate_message(content.as_str()) {
            Ok(v) => v,
            Err(e) => return Err(AppError::Validation(e)),
        };
        let ghost e0 = self.effects@;
        match self.chat.current_chat_target {
            None => {},
            Some(ChatTarget::Channel { channel_id, .. }) => {
                self.send_to_server(ClientMessage::SendChannelMessage { channel_id, content: validated });
                self.play(SoundType::SendChannelMessage);
                self.clear_current_input();
                assert(self.effects@.take(e0.len() as int) =~= e0);
            },
            Some(ChatTarget::DM { user_id }) => {
                let command = match MessageService::parse_command(validated.as_str()) {
                    Some((cmd, _args)) => {
                        let c = chars_of(cmd.as_str());
                        if crate::text::chars_eq(c.as_slice(), chars_of("accept").as_slice()) {
                            1u8
                        } else if crate::text::chars_eq(c.as_slice(), chars_of("decline").as_slice()) {
                            2u8
                        } else {
                            0u8
                        }
                    },
                    None => 0u8,
                };
                proof {
                    reveal_strlit("accept");
                    reveal_strlit("decline");
                }
                if command == 1 {
                    self.send_to_server(ClientMessage::AcceptServerInviteFromUser { from_user_id: user_id });
                    self.set_notification("Server invite accepted!".to_string(), Some(2000), false);
                    self.play(SoundType::Select);
                    self.clear_current_input();
                    assert(self.effects@ =~= e0 + seq![
                        Effect::Send(ClientMessage::AcceptServerInviteFromUser { from_user_id: user_id }),
                        Effect::Play(SoundType::Select),
                    ]);
                    return Ok(());
                } else if command == 2 {
                    self.send_to_server(ClientMessage::DeclineServerInviteFromUser { from_user_id: user_id });
                    self.set_notification("Server invite declined.".to_string(), Some(2000), false);
                    self.play(SoundType::Select);
                    self.clear_current_input();
                    assert(self.effects@ =~= e0 + seq![
                        Effect::Send(ClientMessage::DeclineServerInviteFromUser { from_user_id: user_id }),
                        Effect::Play(SoundType::Select),
                    ]);
                    return Ok(());
                }
                self.send_to_server(ClientMessage::SendDirectMessage { to: user_id, content: validated });
                self.play(SoundType::MessageSent);
                self.clear_current_input();
                assert(self.effects@.take(e0.len() as int) =~= e0);
            },
        }
        Ok(())
    }

    /// Validates the edited profile and sends it: refuses invalid fields
    /// (`ProfileService::validate_profile_data`) or images
    /// (`ImageService::validate_image_data`, picture first) with the error,
    /// changing nothing; else clears the edit error and sends the fields,
    /// each image field as `ProfileService::file_or_url_to_base64` makes
    /// it. `profile_pic_file` and `cover_banner_file` are the contents of
    /// the files that `ProfileService::file_candidate` names for the two
    /// image fields, where they could be read.
    pub fn save_profile(&mut self, profile_pic_file: Option<Vec<u8>>, cover_banner_file: Option<Vec<u8>>) -> (r: AppResult<()>)
        ensures
            ({
                let p = old(self).profile;
                if !profile_data_ok(p.edit_bio@, p.edit_url1@, p.edit_url2@, p.edit_url3@, p.edit_location@) {
                    *final(self) == *old(self) && (r matches Err(AppError::Validation(m))
                        && m@ == profile_data_error(p.edit_bio@, p.edit_url1@, p.edit_url2@, p.edit_url3@, p.edit_location@))
                } else if image_data_problem(p.edit_profile_pic@) is Some {
                    *final(self) == *old(self) && (r matches Err(AppError::Image(m))
                        && Some(m@) == image_data_problem(p.edit_profile_pic@))
                } else if image_data_problem(p.edit_cover_banner@) is Some {
                    *final(self) == *old(self) && (r matches Err(AppError::Image(m))
                        && Some(m@) == image_data_problem(p.edit_cover_banner@))
                } else {
                    &&& r is Ok
                    &&& final(self).profile == (ProfileState { profile_edit_error: None, ..p })
                    &&& *final(self) == (App { profile: final(self).profile, effects: final(self).effects, ..*old(self) })
                    &&& final(self).effects@.len() == old(self).effects@.len() + 1
                    &&& final(self).effects@.drop_last() == old(self).effects@
                    &&& final(self).effects@.last() matches Effect::Send(m)
                        && profile_update(p, m, opt_bytes(profile_pic_file), opt_bytes(cover_banner_file))
                }
            }),
    {
        match ProfileService::validate_profile_data(
            self.profile.edit_bio.as_str(),
            self.profile.edit_url1.as_str(),
            self.profile.edit_url2.as_str(),
            self.profile.edit_url3.as_str(),
            self.profile.edit_location.as_str(),
        ) {
            Ok(()) => {},
            Err(e) => return Err(AppError::Validation(e)),
        }
        match ImageService::validate_image_data(self.profile.edit_profile_pic.as_str()) {
            Ok(()) => {},
            Err(e) => return Err(e),
        }
        match ImageService::validate_image_data(self.profile.edit_cover_banner.as_str()) {
            Ok(()) => {},
            Err(e) => return Err(e),
        }
        let ghost pic_bytes = opt_bytes(profile_pic_file);
        let ghost banner_bytes = opt_bytes(cover_banner_file);
        let profile_pic = ProfileService::file_or_url_to_base64(self.profile.edit_profile_pic.as_str(), profile_pic_file);
        let cover_banner = ProfileService::file_or_url_to_base64(self.profile.edit_cover_banner.as_str(), cover_banner_file);
        self.profile.profile_edit_error = None;
        let msg = ClientMessage::UpdateProfile {
            bio: Some(self.profile.edit_bio.clone()),
            url1: Some(self.profile.edit_url1.clone()),
            url2: Some(self.profile.edit_url2.clone()),
            url3: Some(self.profile.edit_url3.clone()),
            location: Some(self.profile.edit_location.clone()),
            profile_pic,
            cover_banner,
        };
        assert(profile_update(old(self).profile, msg, pic_bytes, banner_bytes));
        self.send_to_server(msg);
        Ok(())
    }

    /// Recomputes the mention suggestions for the draft: the positions in
    /// the channel's user list of the suggested names (the first user of
    /// each name), the first one selected, and the mention typed as prefix;
    /// with no suggestion, clears them.
    pub fn update_mention_suggestions(&mut self)
        ensures
            mentions_updated(*old(self), *final(self)),
    {
        let input = self.get_current_input().to_string();
        let suggestions = ChatService::get_mention_suggestions(input.as_str(), self.chat.channel_userlist.as_slice());
        if suggestions.len() == 0 {
            self.chat.clear_mention_suggestions();
            return;
        }
        let ghost users = self.chat.channel_userlist@;
        let mut indices: Vec<usize> = Vec::new();
        let mut k: usize = 0;
        while k < suggestions.len()
            invariant
                k <= suggestions@.len(),
                users == self.chat.channel_userlist@,
                indices@ == name_positions(users, views(suggestions@).take(k as int)),
            decreases suggestions.len() - k,
        {
            proof {
                assert(views(suggestions@).take(k + 1).drop_last() =~= views(suggestions@).take(k as int));
                assert(views(suggestions@).take(k + 1).last() == suggestions@[k as int]@);
            }
            let mut i: usize = 0;
            let mut found: Option<usize> = None;
            assert(users.skip(0) =~= users);
            while i < self.chat.channel_userlist.len() && found.is_none()
                invariant
                    i <= users.len(),
                    k < suggestions@.len(),
                    users == self.chat.channel_userlist@,
                    found is None ==> first_named(users, suggestions@[k as int]@) == match first_named(users.skip(i as int), suggestions@[k as int]@) {
                        Some(j) => Some(j + i),
                        None => None::<int>,
                    },
                    found matches Some(f) ==> first_named(users, suggestions@[k as int]@) == Some(f as int),
                decreases users.len() - i + (if found is None { 1int } else { 0int }),
            {
                if self.chat.channel_userlist[i].username == suggestions[k] {
                    assert(users.skip(i as int)[0] == users[i as int]);
                    found = Some(i);
                } else {
                    assert(users.skip(i as int).drop_first() =~= users.skip(i + 1));
                    i = i + 1;
                }
            }
            if found.is_none() {
                assert(users.skip(i as int) =~= Seq::<User>::empty());
            }
            match found {
                Some(f) => indices.push(f),
                None => {},
            }
            k = k + 1;
        }
        assert(views(suggestions@).take(suggestions@.len() as int) =~= views(suggestions@));
        self.chat.mention_suggestions = indices;
        self.chat.mention_selected = 0;
        let c = chars_of(input.as_str());
        match typed_word_of(&c, '@', true) {
            Some(w) => self.chat.mention_prefix = Some(string_of(w.as_slice())),
            None => {},
        }
    }

    /// Replaces the mention being typed with the selected suggestion and
    /// clears the suggestions; nothing happens without a prefix or a valid
    /// selection.
    pub fn apply_selected_mention(&mut self)
        ensures
            mention_applied(*old(self), *final(self)),
    {
        let prefix = match &self.chat.mention_prefix {
            Some(p) => p.clone(),
            None => return,
        };
        if self.chat.mention_selected >= self.chat.mention_suggestions.len() {
            return;
        }
        let user_idx = self.chat.mention_suggestions[self.chat.mention_selected];
        if user_idx >= self.chat.channel_userlist.len() {
            return;
        }
        let input = self.get_current_input().to_string();
        let new_input = ChatService::apply_mention_suggestion(
            input.as_str(),
            self.chat.channel_userlist[user_idx].username.as_str(),
            prefix.as_str(),
        );
        self.set_current_input(new_input);
        self.chat.clear_mention_suggestions();
    }

    /// Turns a complete shortcode of the draft into its emoji (and clears
    /// the emoji suggestions); otherwise recomputes the suggestions for the
    /// shortcode being typed, the first one selected, or clears them.
    pub fn update_emoji_suggestions(&mut self)
        ensures
            emojis_updated(*old(self), *final(self)),
    {
        let input = self.get_current_input().to_string();
        match find_exact_emoji(input.as_str()) {
            Some((emoji, ca, cb, _ba, _bb)) => {
                let c = chars_of(input.as_str());
                proof {
                    crate::services::chat::lemma_emoji_code_facts(c@, 0);
                }
                let mut v = crate::text::slice_chars(&c, 0, ca);
                let e = chars_of(emoji.as_str());
                crate::text::push_all(&mut v, e.as_slice());
                let tail = crate::text::slice_chars(&c, cb, c.len());
                crate::text::push_all(&mut v, tail.as_slice());
                assert(v@ =~= c@.take(ca as int) + emoji@ + c@.skip(cb as int));
                self.set_current_input(string_of(v.as_slice()));
                self.chat.clear_emoji_suggestions();
                return;
            },
            None => {},
        }
        let suggestions = ChatService::get_emoji_suggestions(input.as_str());
        if suggestions.len() == 0 {
            self.chat.clear_emoji_suggestions();
            return;
        }
        self.chat.emoji_suggestions = suggestions;
        self.chat.emoji_selected = 0;
        let c = chars_of(input.as_str());
        match typed_word_of(&c, ':', false) {
            Some(w) => self.chat.emoji_prefix = Some(string_of(w.as_slice())),
            None => {},
        }
    }

    /// Replaces the shortcode being typed with the selected emoji and
    /// clears the suggestions; nothing happens without a prefix or a valid
    /// selection.
    pub fn apply_selected_emoji(&mut self)
        ensures
            emoji_applied(*old(self), *final(self)),
    {
        let prefix = match &self.chat.emoji_prefix {
            Some(p) => p.clone(),
            None => return,
        };
        if self.chat.emoji_selected >= self.chat.emoji_suggestions.len() {
            return;
        }
        let input = self.get_current_input().to_string();
        let new_input = ChatService::apply_emoji_suggestion(
            input.as_str(),
            self.chat.emoji_suggestions[self.chat.emoji_selected].as_str(),
            prefix.as_str(),
        );
        self.set_current_input(new_input);
        self.chat.clear_emoji_suggestions();
    }


    /// The title of the chat pane: the selected channel, or the selected
    /// conversation's user (`unknown` when the selection is missing), or
    /// `Chat`.
    pub fn get_current_chat_title(&self) -> (r: String)
        ensures
            r@ == chat_title(self.chat),
    {
        match self.chat.current_chat_target {
            Some(ChatTarget::Channel { .. }) => {
                let name: &str = match (self.chat.selected_server, self.chat.selected_channel) {
                    (Some(s), Some(k)) => if s < self.chat.servers.len() && k < self.chat.servers[s].channels.len() {
                        self.chat.servers[s].channels[k].name.as_str()
                    } else {
                        "unknown"
                    },
                    _ => "unknown",
                };
                crate::text::concat_str("Channel // #", name)
            },
            Some(ChatTarget::DM { .. }) => {
                let name: &str = match self.chat.selected_dm_user {
                    Some(i) => if i < self.chat.dm_user_list.len() {
                        self.chat.dm_user_list[i].username.as_str()
                    } else {
                        "unknown"
                    },
                    None => "unknown",
                };
                crate::text::concat_str("Conversation // @", name)
            },
            None => "Chat".to_string(),
        }
    }

}

} // verus!
