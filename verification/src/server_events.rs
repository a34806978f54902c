//! What the application does with each message from the server.

use vstd::prelude::*;
use crate::app::{App, Effect, loaded_first_chat, queued, service_kept, shows, opt_text};
use crate::model::{
    ChannelMessage, ClientMessage, DirectMessage, Forum, ForumLightweight, Post, PostLightweight,
    ServerMessage, Thread, ThreadLightweight, User, UserInfo, UserProfile, UserStatus, Server,
    Notification,
};
use crate::notify::{DesktopNotificationService, NotificationUrgency, preview_ok, preview_text, preview_fits};
use crate::services::chat::{fallback_name, find_user, missing_avatar, preloaded, ChatService};
use crate::sound::SoundType;
use crate::state::chat::{ChatState, ChatTarget, SidebarTab};
use crate::state::forum::{ForumState, find_forum};
use crate::state::profile::{ProfileState, text_or_empty};
use crate::state::ui::{AppMode, UiState};
use crate::state::ListSelection;
use crate::text::{chars_of, chars_eq, contains_chars, contains_seq, lex_le, lex_lt, lowercase, string_of, to_lowercase, chars_lt};

verus! {

broadcast use vstd::std_specs::hash::group_hash_axioms;

// ---------------------------------------------------------------------
// Users
// ---------------------------------------------------------------------

/// The position of the first user with the identifier.
pub open spec fn user_pos(users: Seq<User>, id: u128) -> Option<int>
    decreases users.len(),
{
    if users.len() == 0 {
        None
    } else if users[0].id == id {
        Some(0)
    } else {
        match user_pos(users.drop_first(), id) {
            Some(i) => Some(i + 1),
            None => None,
        }
    }
}

proof fn lemma_user_pos(users: Seq<User>, id: u128)
    ensures
        user_pos(users, id) matches Some(i) ==> 0 <= i < users.len() && users[i].id == id,
    decreases users.len(),
{
    if users.len() > 0 && users[0].id != id {
        lemma_user_pos(users.drop_first(), id);
    }
}

/// The position of the first user with the identifier.
fn user_pos_in(users: &Vec<User>, id: u128) -> (r: Option<usize>)
    ensures
        r matches Some(i) ==> user_pos(users@, id) == Some(i as int) && i < users@.len() && users@[i as int].id == id,
        r is None ==> user_pos(users@, id) is None,
{
    let mut i: usize = 0;
    assert(users@.skip(0) =~= users@);
    while i < users.len()
        invariant
            i <= users@.len(),
            user_pos(users@, id) == match user_pos(users@.skip(i as int), id) {
                Some(k) => Some(k + i),
                None => None::<int>,
            },
        decreases users.len() - i,
    {
        if users[i].id == id {
            assert(users@.skip(i as int)[0] == users@[i as int]);
            return Some(i);
        }
        assert(users@.skip(i as int).drop_first() =~= users@.skip(i + 1));
        i = i + 1;
    }
    assert(users@.skip(i as int) =~= Seq::<User>::empty());
    None
}

/// The users with the first one of the given identifier changed by `f`.
pub open spec fn update_first(users: Seq<User>, id: u128, u: User) -> Seq<User> {
    match user_pos(users, id) {
        Some(i) => users.update(i, u),
        None => users,
    }
}

/// The users with the status of the first one of the identifier set.
pub open spec fn set_first_status(users: Seq<User>, id: u128, st: UserStatus) -> Seq<User> {
    match user_pos(users, id) {
        Some(i) => users.update(i, User { status: st, ..users[i] }),
        None => users,
    }
}

/// The users with the picture of the first one of the identifier set.
pub open spec fn set_first_pic(users: Seq<User>, id: u128, pic: Option<String>) -> Seq<User> {
    match user_pos(users, id) {
        Some(i) => users.update(i, User { profile_pic: pic, ..users[i] }),
        None => users,
    }
}

/// The users once each received avatar has been set, in order.
pub open spec fn avatars_applied(users: Seq<User>, avatars: Seq<(u128, Option<String>)>) -> Seq<User>
    decreases avatars.len(),
{
    if avatars.len() == 0 {
        users
    } else {
        let a = avatars.last();
        set_first_pic(avatars_applied(users, avatars.drop_last()), a.0, a.1)
    }
}

/// The key by which the channel's user list is ordered: the name in lower
/// case.
pub open spec fn user_key(u: User) -> Seq<char> {
    lowercase(u.username@)
}

/// Inserts `x` before the first user whose key is not greater than its own.
pub open spec fn insert_desc(x: User, s: Seq<User>) -> Seq<User>
    decreases s.len(),
{
    if s.len() == 0 {
        seq![x]
    } else if lex_le(user_key(s[0]), user_key(x)) {
        seq![x] + s
    } else {
        seq![s[0]] + insert_desc(x, s.drop_first())
    }
}

/// The users sorted by key with a stable sort and then reversed: keys in
/// descending order, users of equal keys in the reverse of their order.
pub open spec fn sort_users_desc(s: Seq<User>) -> Seq<User>
    decreases s.len(),
{
    if s.len() == 0 {
        s
    } else {
        insert_desc(s.last(), sort_users_desc(s.drop_last()))
    }
}

proof fn lemma_insert_desc_at(x: User, s: Seq<User>, k: int)
    requires
        0 <= k <= s.len(),
        forall|j: int| 0 <= j < k ==> !lex_le(user_key(#[trigger] s[j]), user_key(x)),
        k == s.len() || lex_le(user_key(s[k]), user_key(x)),
    ensures
        insert_desc(x, s) == s.take(k) + seq![x] + s.skip(k),
    decreases s.len(),
{
    if s.len() == 0 {
        assert(s.take(k) + seq![x] + s.skip(k) =~= seq![x]);
    } else if k == 0 {
        assert(s.take(k) + seq![x] + s.skip(k) =~= seq![x] + s);
    } else {
        let t = s.drop_first();
        assert forall|j: int| 0 <= j < k - 1 implies !lex_le(user_key(#[trigger] t[j]), user_key(x)) by {
            assert(t[j] == s[j + 1]);
        }
        if k - 1 < t.len() {
            assert(t[k - 1] == s[k]);
        }
        lemma_insert_desc_at(x, t, k - 1);
        assert(s.take(k) + seq![x] + s.skip(k) =~= seq![s[0]] + (t.take(k - 1) + seq![x] + t.skip(k - 1)));
    }
}

/// The users in the order of `sort_users_desc`.
fn sort_users(users: Vec<User>) -> (r: Vec<User>)
    ensures
        r@ == sort_users_desc(users@),
{
    let mut r: Vec<User> = Vec::new();
    let mut keys: Vec<Vec<char>> = Vec::new();
    let mut rest = users;
    let ghost all = rest@;
    let mut i: usize = 0;
    let n = rest.len();
    while i < n
        invariant
            i <= n,
            n == all.len(),
            r@ == sort_users_desc(all.take(i as int)),
            keys@.len() == r@.len(),
            forall|j: int| 0 <= j < keys@.len() ==> (#[trigger] keys@[j])@ == user_key(r@[j]),
            rest@.len() == n - i,
            forall|j: int| 0 <= j < rest@.len() ==> #[trigger] rest@[j] == all[j + i],
        decreases n - i,
    {
        let x = rest.remove(0);
        assert(x == all[i as int]);
        assert forall|j: int| 0 <= j < rest@.len() implies #[trigger] rest@[j] == all[j + i + 1] by {
        }
        let xk = chars_of(to_lowercase(x.username.as_str()).as_str());
        let mut k: usize = 0;
        let mut found = false;
        while k < r.len() && !found
            invariant
                k <= r@.len(),
                keys@.len() == r@.len(),
                forall|j: int| 0 <= j < keys@.len() ==> (#[trigger] keys@[j])@ == user_key(r@[j]),
                xk@ == user_key(x),
                forall|j: int| 0 <= j < k ==> !lex_le(user_key(#[trigger] r@[j]), user_key(x)),
                found ==> k < r@.len() && lex_le(user_key(r@[k as int]), user_key(x)),
            decreases r@.len() - k + (if found { 0int } else { 1int }),
        {
            let rk = &keys[k];
            if chars_lt(rk.as_slice(), xk.as_slice()) || chars_eq(rk.as_slice(), xk.as_slice()) {
                found = true;
            } else {
                k = k + 1;
            }
        }
        proof {
            lemma_insert_desc_at(x, r@, k as int);
            let s = all.take(i as int + 1);
            assert(s.drop_last() =~= all.take(i as int));
            assert(s.last() == x);
        }
        let ghost old_r = r@;
        let ghost old_keys = keys@;
        r.insert(k, x);
        keys.insert(k, xk);
        assert(r@ =~= old_r.take(k as int) + seq![x] + old_r.skip(k as int));
        assert forall|j: int| 0 <= j < keys@.len() implies (#[trigger] keys@[j])@ == user_key(r@[j]) by {
            if j < k {
                assert(keys@[j] == old_keys[j]);
            } else if j > k {
                assert(keys@[j] == old_keys[j - 1]);
            }
        }
        i = i + 1;
    }
    assert(all.take(n as int) =~= all);
    r
}

// ---------------------------------------------------------------------
// Forums
// ---------------------------------------------------------------------

/// The position of the first thread with the title.
pub open spec fn thread_titled(threads: Seq<Thread>, title: Seq<char>) -> Option<int>
    decreases threads.len(),
{
    if threads.len() == 0 {
        None
    } else if threads[0].title@ == title {
        Some(0)
    } else {
        match thread_titled(threads.drop_first(), title) {
            Some(i) => Some(i + 1),
            None => None,
        }
    }
}

/// The position, in the forum shown among `forums`, of the thread whose
/// creation is pending (found by its title).
pub open spec fn pending_thread(f: ForumState, forums: Seq<Forum>) -> Option<int> {
    match (f.current_forum_id, f.pending_new_thread_title) {
        (Some(fid), Some(title)) => match find_forum(forums, fid) {
            Some(fi) => thread_titled(forums[fi].threads@, title@),
            None => None,
        },
        _ => None,
    }
}

/// What a new list of forums does: it replaces the forums; when the thread
/// whose creation is pending is in the forum shown, that thread is
/// selected and shown and nothing is pending any more.
pub open spec fn forums_arrived(o: App, n: App, forums: Vec<Forum>) -> bool {
    match pending_thread(o.forum, forums@) {
        None => n == (App { forum: ForumState { forums: forums, ..o.forum }, ..o }),
        Some(ti) => {
            let fi = find_forum(forums@, o.forum.current_forum_id->0)->0;
            let tid = forums@[fi].threads@[ti].id;
            n == (App {
                forum: ForumState {
                    forums: forums,
                    thread_list_state: ListSelection { selected: Some(ti as usize) },
                    current_thread_id: Some(tid),
                    selected_post_index: Some(0),
                    selected_reply_index: None,
                    reply_to_post_id: None,
                    scroll_offset: 0,
                    pending_new_thread_title: None,
                    ..o.forum
                },
                ui: UiState { mode: AppMode::PostView, ..o.ui },
                ..o
            })
        },
    }
}

/// A user made from the lightweight description, without images.
pub open spec fn user_from_info(u: User, i: UserInfo) -> bool {
    u == User {
        id: i.id,
        username: i.username,
        color: i.color,
        role: i.role,
        profile_pic: None,
        cover_banner: None,
        status: i.status,
    }
}

/// A post made from its lightweight description.
pub open spec fn post_from_light(p: Post, l: PostLightweight) -> bool {
    p.id == l.id && user_from_info(p.author, l.author) && p.content == l.content && p.timestamp == l.timestamp
        && p.reply_to == l.reply_to
}

/// A thread made from its lightweight description.
pub open spec fn thread_from_light(t: Thread, l: ThreadLightweight) -> bool {
    &&& t.id == l.id && t.title == l.title && user_from_info(t.author, l.author) && t.timestamp == l.timestamp
    &&& t.posts@.len() == l.posts@.len()
    &&& forall|k: int| 0 <= k < t.posts@.len() ==> post_from_light(#[trigger] t.posts@[k], l.posts@[k])
}

/// A forum made from its lightweight description.
pub open spec fn forum_from_light(f: Forum, l: ForumLightweight) -> bool {
    &&& f.id == l.id && f.name == l.name && f.description == l.description
    &&& f.threads@.len() == l.threads@.len()
    &&& forall|k: int| 0 <= k < f.threads@.len() ==> thread_from_light(#[trigger] f.threads@[k], l.threads@[k])
}

/// The forums made from the lightweight descriptions, in order.
pub open spec fn forums_from_light(fs: Seq<Forum>, ls: Seq<ForumLightweight>) -> bool {
    fs.len() == ls.len() && forall|k: int| 0 <= k < fs.len() ==> forum_from_light(#[trigger] fs[k], ls[k])
}

fn user_of_info(i: UserInfo) -> (u: User)
    ensures
        user_from_info(u, i),
{
    User {
        id: i.id,
        username: i.username,
        color: i.color,
        role: i.role,
        profile_pic: None,
        cover_banner: None,
        status: i.status,
    }
}

fn forums_of_light(ls: Vec<ForumLightweight>) -> (r: Vec<Forum>)
    ensures
        forums_from_light(r@, ls@),
{
    let ghost all = ls@;
    let mut rest = ls;
    let mut r: Vec<Forum> = Vec::new();
    let n = rest.len();
    let mut i: usize = 0;
    while i < n
        invariant
            i <= n,
            n == all.len(),
            r@.len() == i,
            forall|k: int| 0 <= k < i ==> forum_from_light(#[trigger] r@[k], all[k]),
            rest@.len() == n - i,
            forall|j: int| 0 <= j < rest@.len() ==> #[trigger] rest@[j] == all[j + i],
        decreases n - i,
    {
        let fl = rest.remove(0);
        assert(fl == all[i as int]);
        assert forall|j: int| 0 <= j < rest@.len() implies #[trigger] rest@[j] == all[j + i + 1] by {}
        let ghost lthreads = fl.threads@;
        let mut trest = fl.threads;
        let mut threads: Vec<Thread> = Vec::new();
        let tn = trest.len();
        let mut ti: usize = 0;
        while ti < tn
            invariant
                ti <= tn,
                tn == lthreads.len(),
                threads@.len() == ti,
                forall|k: int| 0 <= k < ti ==> thread_from_light(#[trigger] threads@[k], lthreads[k]),
                trest@.len() == tn - ti,
                forall|j: int| 0 <= j < trest@.len() ==> #[trigger] trest@[j] == lthreads[j + ti],
            decreases tn - ti,
        {
            let tl = trest.remove(0);
            assert(tl == lthreads[ti as int]);
            assert forall|j: int| 0 <= j < trest@.len() implies #[trigger] trest@[j] == lthreads[j + ti + 1] by {}
            let ghost lposts = tl.posts@;
            let mut prest = tl.posts;
            let mut posts: Vec<Post> = Vec::new();
            let pn = prest.len();
            let mut pi: usize = 0;
            while pi < pn
                invariant
                    pi <= pn,
                    pn == lposts.len(),
                    posts@.len() == pi,
                    forall|k: int| 0 <= k < pi ==> post_from_light(#[trigger] posts@[k], lposts[k]),
                    prest@.len() == pn - pi,
                    forall|j: int| 0 <= j < prest@.len() ==> #[trigger] prest@[j] == lposts[j + pi],
                decreases pn - pi,
            {
                let pl = prest.remove(0);
                assert(pl == lposts[pi as int]);
                assert forall|j: int| 0 <= j < prest@.len() implies #[trigger] prest@[j] == lposts[j + pi + 1] by {}
                let p = Post {
                    id: pl.id,
                    author: user_of_info(pl.author),
                    content: pl.content,
                    timestamp: pl.timestamp,
                    reply_to: pl.reply_to,
                };
                posts.push(p);
                pi = pi + 1;
            }
            let t = Thread {
                id: tl.id,
                title: tl.title,
                author: user_of_info(tl.author),
                posts: posts,
                timestamp: tl.timestamp,
            };
            threads.push(t);
            ti = ti + 1;
        }
        let f = Forum { id: fl.id, name: fl.name, description: fl.description, threads: threads };
        r.push(f);
        i = i + 1;
    }
    r
}


// ---------------------------------------------------------------------
// Notifications, desktop notifications and avatar requests
// ---------------------------------------------------------------------

/// `e` shows a desktop notification with these fields.
pub open spec fn desktop_is(
    e: Effect,
    title: Seq<char>,
    message: Seq<char>,
    urgency: NotificationUrgency,
    icon: Option<(Seq<char>, Seq<char>)>,
) -> bool {
    e matches Effect::Desktop(d) && d.title@ == title && d.message@ == message && d.urgency == urgency
        && d.icon_path is None && crate::notify::icon_view(d.icon_picture) == icon
}

/// The icon of a picture and its owner.
pub open spec fn pic_icon(pic: Option<Seq<char>>, owner: Seq<char>) -> Option<(Seq<char>, Seq<char>)> {
    match pic {
        Some(p) => Some((p, owner)),
        None => None,
    }
}

/// The effects `n` follow `o` with the avatar request for the users of `c`
/// that have no picture (see `ChatService::request_missing_avatars`).
pub open spec fn avatars_requested(c: ChatState, o: Seq<Effect>, n: Seq<Effect>) -> bool {
    if forall|id: u128| !missing_avatar(c, id) {
        n == o
    } else {
        &&& n.len() == o.len() + 1
        &&& n.drop_last() == o
        &&& n.last() matches Effect::Send(ClientMessage::GetUserAvatars { user_ids }) && {
            &&& 0 < user_ids@.len() <= 20
            &&& user_ids@.no_duplicates()
            &&& forall|k: int| 0 <= k < user_ids@.len() ==> missing_avatar(c, #[trigger] user_ids@[k])
            &&& user_ids@.len() < 20 ==> forall|id: u128| missing_avatar(c, id) ==> user_ids@.contains(id)
        }
    }
}

/// The effects `n` follow `o` with, when the text can be previewed, one
/// desktop notification `d`, and then the effects `after`.
pub open spec fn desktop_then(o: Seq<Effect>, n: Seq<Effect>, previewable: bool, d: spec_fn(Effect) -> bool, after: Seq<Effect>) -> bool {
    if previewable {
        n.len() == o.len() + 1 + after.len() && n.take(o.len() as int) == o && d(n[o.len() as int])
            && n.skip(o.len() as int + 1) == after
    } else {
        n == o + after
    }
}

// ---------------------------------------------------------------------
// The outcome of each message
// ---------------------------------------------------------------------

/// The name and picture shown for the author of a direct message.
pub open spec fn dm_author(o: App, from: u128) -> (Seq<char>, Option<Seq<char>>) {
    match find_user(o.chat.dm_user_list@, from) {
        Some(u) => (u.username@, opt_text(u.profile_pic)),
        None => match o.auth.current_user {
            Some(me) => if me.id == from {
                (me.username@, opt_text(me.profile_pic))
            } else {
                (fallback_name(from), None)
            },
            None => (fallback_name(from), None),
        },
    }
}

/// The direct message belongs to the conversation shown.
pub open spec fn dm_is_current(o: App, dm: DirectMessage) -> bool {
    &&& o.chat.current_chat_target matches Some(ChatTarget::DM { user_id }) && (user_id == dm.from || user_id == dm.to)
    &&& o.auth.current_user is Some
    &&& o.chat.sidebar_tab == SidebarTab::DMs
}

/// A direct message: in the conversation shown it is appended and the view
/// scrolls to it; sent to the user from elsewhere it marks its conversation
/// unread and is announced, in the application and on the desktop.
pub open spec fn dm_arrived(o: App, n: App, dm: DirectMessage) -> bool {
    if dm_is_current(o, dm) {
        n == (App { chat: ChatState { dm_messages: n.chat.dm_messages, chat_scroll_offset: 0, ..o.chat }, ..o })
            && n.chat.dm_messages@ == o.chat.dm_messages@.push(dm)
    } else if o.auth.current_user matches Some(me) && dm.to == me.id {
        let author = dm_author(o, dm.from);
        &&& n == (App {
            chat: ChatState { unread_dm_conversations: n.chat.unread_dm_conversations, ..o.chat },
            notifications: n.notifications,
            effects: n.effects,
            ..o
        })
        &&& n.chat.unread_dm_conversations@ == o.chat.unread_dm_conversations@.insert(dm.from)
        &&& shows(o.notifications, n.notifications, "DM from "@ + author.0 + ": "@ + dm.content@, Some(4000), true, o.ui.tick_count)
        &&& desktop_then(o.effects@, n.effects@, preview_ok(dm.content@),
            |e: Effect| desktop_is(e, author.0, preview_text(dm.content@), NotificationUrgency::Normal, pic_icon(author.1, author.0)),
            Seq::empty())
    } else {
        n == o
    }
}

/// The change of a user's record: in the channel's list (first match), as
/// the current user, and the avatar images to remake.
pub open spec fn user_updated(o: App, n: App, user: User) -> bool {
    &&& n == (App {
        chat: ChatState { channel_userlist: n.chat.channel_userlist, ..o.chat },
        auth: crate::state::auth::AuthState { current_user: n.auth.current_user, ..o.auth },
        effects: n.effects,
        ..o
    })
    &&& n.chat.channel_userlist@ == update_first(o.chat.channel_userlist@, user.id, user)
    &&& n.auth.current_user == match o.auth.current_user {
        Some(me) => if me.id == user.id { Some(user) } else { Some(me) },
        None => None,
    }
    &&& queued(o, n, seq![Effect::InvalidateAvatar(user.id)])
}

/// Messages of a conversation arriving: the older ones go first.
pub open spec fn prepended<T>(old_msgs: Seq<T>, arrived: Seq<T>) -> Seq<T> {
    if old_msgs.len() == 0 { arrived } else { arrived + old_msgs }
}

/// A page of a channel's history: when it is the channel shown, its
/// messages go before those loaded and whether the history is complete is
/// recorded; else nothing changes. `preload` says whether the avatars of
/// the channel's users are then preloaded.
pub open spec fn channel_page(o: App, n: App, channel_id: u128, messages: Seq<ChannelMessage>, complete: bool, preload: bool) -> bool {
    if o.chat.current_chat_target matches Some(ChatTarget::Channel { channel_id: c, .. }) && c == channel_id {
        &&& n == (App {
            chat: ChatState {
                chat_messages: n.chat.chat_messages,
                channel_history_complete: n.chat.channel_history_complete,
                ..o.chat
            },
            chat_service: n.chat_service,
            ..o
        })
        &&& n.chat.chat_messages@ == prepended(o.chat.chat_messages@, messages)
        &&& n.chat.channel_history_complete@ == o.chat.channel_history_complete@.insert(channel_id, complete)
        &&& if preload { preloaded(o.chat_service, n.chat_service, n.chat) } else { n.chat_service == o.chat_service }
    } else {
        n == o
    }
}

/// A page of a direct conversation's history, as `channel_page`.
pub open spec fn dm_page(o: App, n: App, user_id: u128, messages: Seq<DirectMessage>, complete: bool, preload: bool) -> bool {
    if o.chat.current_chat_target matches Some(ChatTarget::DM { user_id: u }) && u == user_id {
        &&& n == (App {
            chat: ChatState { dm_messages: n.chat.dm_messages, dm_history_complete: complete, ..o.chat },
            chat_service: n.chat_service,
            ..o
        })
        &&& n.chat.dm_messages@ == prepended(o.chat.dm_messages@, messages)
        &&& if preload { preloaded(o.chat_service, n.chat_service, n.chat) } else { n.chat_service == o.chat_service }
    } else {
        n == o
    }
}

/// The notification text of a server notice: `Error: ` or `Info: ` and
/// the text.
pub open spec fn notice_text(text: Seq<char>, is_error: bool) -> Seq<char> {
    if is_error { "Error: "@ + text } else { "Info: "@ + text }
}

/// A notice that is also shown on the desktop when it is not an error.
pub open spec fn notice_worth_desktop(text: Seq<char>) -> bool {
    contains_seq(text, "Profile updated successfully"@) || contains_seq(text, "Server invite"@)
        || contains_seq(text, "connected"@) || contains_seq(text, "disconnected"@)
}

/// A notice from the server: shown for two seconds; an error, or an
/// important piece of information, also on the desktop; a successful
/// profile update plays the save sound and leaves the profile editor.
pub open spec fn notice_arrived(o: App, n: App, text: Seq<char>, is_error: bool) -> bool {
    let saved = !is_error && contains_seq(text, "Profile updated successfully"@);
    &&& n == (App { notifications: n.notifications, effects: n.effects, ui: n.ui, ..o })
    &&& shows(o.notifications, n.notifications, notice_text(text, is_error), Some(2000), false, o.ui.tick_count)
    &&& n.ui == if saved && o.ui.mode == AppMode::EditProfile { UiState { mode: AppMode::Settings, ..o.ui } } else { o.ui }
    &&& desktop_then(o.effects@, n.effects@, is_error || notice_worth_desktop(text),
        |e: Effect| if is_error {
            desktop_is(e, "Nexus - Error"@, text, NotificationUrgency::Critical, None)
        } else {
            desktop_is(e, "Nexus"@, text, NotificationUrgency::Low, None)
        },
        if saved { seq![Effect::Play(SoundType::Save)] } else { Seq::empty() })
}

/// A successful login: the user is logged in, the main menu shown with its
/// first entries selected, and the login sound played.
pub open spec fn auth_succeeded(o: App, n: App, user: User) -> bool {
    &&& n == (App { auth: n.auth, ui: n.ui, effects: n.effects, ..o })
    &&& n.auth.current_user == Some(user)
    &&& n.auth.current_input@.len() == 0 && n.auth.password_input@.len() == 0
    &&& n.auth.input_mode == o.auth.input_mode
    &&& n.ui == (UiState {
        mode: AppMode::MainMenu,
        main_menu_state: ListSelection { selected: Some(0) },
        settings_list_state: ListSelection { selected: Some(0) },
        ..o.ui
    })
    &&& queued(o, n, seq![Effect::Play(SoundType::LoginSuccess)])
}

/// A refused login: the reason is shown until dismissed and the failure
/// sound played.
pub open spec fn auth_failed(o: App, n: App, reason: Seq<char>) -> bool {
    &&& n == (App { notifications: n.notifications, effects: n.effects, ..o })
    &&& shows(o.notifications, n.notifications, "Error: "@ + reason, None, false, o.ui.tick_count)
    &&& queued(o, n, seq![Effect::Play(SoundType::LoginFailure)])
}

/// A profile: shown in the popup when the user asked to see it, else
/// loaded into the editor; the request is answered either way.
pub open spec fn profile_arrived(o: App, n: App, profile: UserProfile) -> bool {
    &&& n == (App { profile: n.profile, ..o })
    &&& if o.profile.profile_requested_by_user {
        n.profile == (ProfileState {
            profile_view: Some(profile),
            show_profile_view_popup: true,
            profile_requested_by_user: false,
            ..o.profile
        })
    } else {
        &&& n.profile == (ProfileState {
            edit_bio: n.profile.edit_bio,
            edit_url1: n.profile.edit_url1,
            edit_url2: n.profile.edit_url2,
            edit_url3: n.profile.edit_url3,
            edit_location: n.profile.edit_location,
            edit_profile_pic: n.profile.edit_profile_pic,
            edit_cover_banner: n.profile.edit_cover_banner,
            profile_edit_error: None,
            profile_requested_by_user: false,
            ..o.profile
        })
        &&& n.profile.edit_bio@ == text_or_empty(profile.bio)
        &&& n.profile.edit_url1@ == text_or_empty(profile.url1)
        &&& n.profile.edit_url2@ == text_or_empty(profile.url2)
        &&& n.profile.edit_url3@ == text_or_empty(profile.url3)
        &&& n.profile.edit_location@ == text_or_empty(profile.location)
        &&& n.profile.edit_profile_pic@ == text_or_empty(profile.profile_pic)
        &&& n.profile.edit_cover_banner@ == text_or_empty(profile.cover_banner)
    }
}

/// The list of servers: stored; on the chat screen's server tab, the first
/// (or selected) channel is opened.
pub open spec fn servers_arrived(o: App, n: App, servers: Vec<Server>) -> bool {
    let mid = App { chat: ChatState { servers: servers, ..o.chat }, ..o };
    if o.ui.mode == AppMode::Chat && o.chat.sidebar_tab == SidebarTab::Servers {
        loaded_first_chat(mid, n)
    } else {
        n == mid
    }
}

/// The users of a channel: stored in the order of `sort_users_desc`, the
/// first selected, and the missing avatars asked for.
pub open spec fn channel_users_arrived(o: App, n: App, users: Seq<User>) -> bool {
    &&& n == (App {
        chat: ChatState {
            channel_userlist: n.chat.channel_userlist,
            user_list_state: ListSelection { selected: if users.len() > 0 { Some(0) } else { None } },
            ..o.chat
        },
        effects: n.effects,
        ..o
    })
    &&& n.chat.channel_userlist@ == sort_users_desc(users)
    &&& avatars_requested(n.chat, o.effects@, n.effects@)
}

/// The direct-message list: stored; on the chat screen's direct-message
/// tab, the first (or selected) conversation is opened; the missing avatars
/// are asked for.
pub open spec fn dm_users_arrived(o: App, n: App, users: Vec<User>) -> bool {
    let mid = App { chat: ChatState { dm_user_list: users, ..o.chat }, ..o };
    exists|m: App| #[trigger] avatars_requested(m.chat, m.effects@, n.effects@) && {
        &&& n == (App { effects: n.effects, ..m })
        &&& if o.ui.mode == AppMode::Chat && o.chat.sidebar_tab == SidebarTab::DMs {
            loaded_first_chat(mid, m)
        } else {
            m == mid
        }
    }
}

/// A mention of the user: announced in the application and on the
/// desktop, with the mention sound.
pub open spec fn mention_arrived(o: App, n: App, from: User, content: Seq<char>) -> bool {
    &&& n == (App { notifications: n.notifications, effects: n.effects, ..o })
    &&& shows(o.notifications, n.notifications, "Mentioned by "@ + from.username@ + ": "@ + content, Some(4000), true, o.ui.tick_count)
    &&& desktop_then(o.effects@, n.effects@, preview_ok(content),
        |e: Effect| desktop_is(e, "Mentioned by "@ + from.username@, preview_text(content), NotificationUrgency::Normal,
            pic_icon(opt_text(from.profile_pic), from.username@)),
        seq![Effect::Play(SoundType::Mention)])
}

/// A reply to one of the user's posts: announced, unless the user is
/// reading that thread.
pub open spec fn forum_reply_arrived(o: App, n: App, thread_id: u128, from: Seq<char>, message: Seq<char>, pic: Option<Seq<char>>) -> bool {
    if o.forum.current_thread_id == Some(thread_id) && o.ui.mode == AppMode::PostView {
        n == o
    } else {
        &&& n == (App { notifications: n.notifications, effects: n.effects, ..o })
        &&& shows(o.notifications, n.notifications, from + " replied to your forum post"@, Some(4000), true, o.ui.tick_count)
        &&& desktop_then(o.effects@, n.effects@, preview_ok(message),
            |e: Effect| desktop_is(e, from, preview_text(message), NotificationUrgency::Normal, pic_icon(pic, from)),
            seq![Effect::Play(SoundType::Mention)])
    }
}

/// An invitation to a server: announced, on the desktop too, with the
/// popup sound.
pub open spec fn invite_arrived(o: App, n: App, from: Seq<char>, server: Seq<char>) -> bool {
    &&& n == (App { notifications: n.notifications, effects: n.effects, ..o })
    &&& shows(o.notifications, n.notifications, "Server invite from "@ + from + " to join '"@ + server + "'"@,
        Some(5000), false, o.ui.tick_count)
    &&& n.effects@.len() == o.effects@.len() + 2
    &&& n.effects@.take(o.effects@.len() as int) == o.effects@
    &&& desktop_is(n.effects@[o.effects@.len() as int], "Server Invite Received"@,
        from + " invited you to join '"@ + server + "'"@, NotificationUrgency::Normal, None)
    &&& n.effects@.last() == Effect::Play(SoundType::PopupOpen)
}

/// The answer to an invitation the user sent.
pub open spec fn invite_answered(o: App, n: App, accepted: bool, name: Seq<char>) -> bool {
    &&& n == (App { notifications: n.notifications, ..o })
    &&& shows(o.notifications, n.notifications,
        name + (if accepted { " accepted"@ } else { " declined"@ }) + " your server invite"@,
        Some(3000), false, o.ui.tick_count)
}

/// A user coming online: their status is updated (the user is added to the
/// channel's list when absent).
pub open spec fn user_joined(o: App, n: App, user: User) -> bool {
    &&& n == (App {
        chat: ChatState { channel_userlist: n.chat.channel_userlist, dm_user_list: n.chat.dm_user_list, ..o.chat },
        ..o
    })
    &&& n.chat.channel_userlist@ == match user_pos(o.chat.channel_userlist@, user.id) {
        Some(_) => set_first_status(o.chat.channel_userlist@, user.id, user.status),
        None => o.chat.channel_userlist@.push(user),
    }
    &&& n.chat.dm_user_list@ == set_first_status(o.chat.dm_user_list@, user.id, user.status)
}

/// A user going offline: marked offline in both lists.
pub open spec fn user_left(o: App, n: App, id: u128) -> bool {
    &&& n == (App {
        chat: ChatState { channel_userlist: n.chat.channel_userlist, dm_user_list: n.chat.dm_user_list, ..o.chat },
        ..o
    })
    &&& n.chat.channel_userlist@ == set_first_status(o.chat.channel_userlist@, id, UserStatus::Offline)
    &&& n.chat.dm_user_list@ == set_first_status(o.chat.dm_user_list@, id, UserStatus::Offline)
}

/// A new message in a channel: appended with a sound in the channel shown,
/// else the channel is marked unread.
pub open spec fn channel_message_arrived(o: App, n: App, m: ChannelMessage) -> bool {
    if o.chat.current_chat_target matches Some(ChatTarget::Channel { channel_id, .. }) && channel_id == m.channel_id {
        &&& n == (App { chat: ChatState { chat_messages: n.chat.chat_messages, chat_scroll_offset: 0, ..o.chat }, effects: n.effects, ..o })
        &&& n.chat.chat_messages@ == o.chat.chat_messages@.push(m)
        &&& queued(o, n, seq![Effect::Play(SoundType::ReceiveChannelMessage)])
    } else {
        &&& n == (App { chat: ChatState { unread_channels: n.chat.unread_channels, ..o.chat }, ..o })
        &&& n.chat.unread_channels@ == o.chat.unread_channels@.insert(m.channel_id)
    }
}

/// Query timings: a query slower than a second is reported.
pub open spec fn metrics_arrived(o: App, n: App, query_time_ms: u64) -> bool {
    if query_time_ms > 1000 {
        n == (App { notifications: n.notifications, ..o })
            && shows(o.notifications, n.notifications, "Slow network detected"@, Some(2000), false, o.ui.tick_count)
    } else {
        n == o
    }
}

/// Received avatars (see `avatars_applied`), each user's images remade.
pub open spec fn avatars_arrived(o: App, n: App, avatars: Seq<(u128, Option<String>)>) -> bool {
    &&& n == (App {
        chat: ChatState { channel_userlist: n.chat.channel_userlist, dm_user_list: n.chat.dm_user_list, ..o.chat },
        effects: n.effects,
        ..o
    })
    &&& n.chat.channel_userlist@ == avatars_applied(o.chat.channel_userlist@, avatars)
    &&& n.chat.dm_user_list@ == avatars_applied(o.chat.dm_user_list@, avatars)
    &&& queued(o, n, Seq::new(avatars.len(), |i: int| Effect::InvalidateAvatar(avatars[i].0)))
}

/// What `handle_server_message` does with each message.
pub open spec fn server_message_outcome(o: App, n: App, msg: ServerMessage) -> bool {
    match msg {
        ServerMessage::AuthSuccess(user) => auth_succeeded(o, n, user),
        ServerMessage::AuthFailure(reason) => auth_failed(o, n, reason@),
        ServerMessage::Forums(forums) => forums_arrived(o, n, forums),
        ServerMessage::ForumsLightweight(light) => forums_from_light(n.forum.forums@, light@)
            && forums_arrived(o, n, n.forum.forums),
        ServerMessage::Profile(profile) => profile_arrived(o, n, profile),
        ServerMessage::UserUpdated(user) => user_updated(o, n, user),
        ServerMessage::Servers(servers) => servers_arrived(o, n, servers),
        ServerMessage::ChannelUserList { users, .. } => channel_users_arrived(o, n, users@),
        ServerMessage::DMUserList(users) => dm_users_arrived(o, n, users),
        ServerMessage::DirectMessage(dm) => dm_arrived(o, n, dm),
        ServerMessage::MentionNotification { from, content } => mention_arrived(o, n, from, content@),
        ServerMessage::ForumReplyNotification { thread_id, from_username, message, from_user_profile_pic } =>
            forum_reply_arrived(o, n, thread_id, from_username@, message@, opt_text(from_user_profile_pic)),
        ServerMessage::Notification(text, is_error) => notice_arrived(o, n, text@, is_error),
        ServerMessage::Notifications { notifications, history_complete } => n == (App {
            notifications: crate::state::notification::NotificationState {
                notifications: notifications,
                notification_history_complete: history_complete,
                ..o.notifications
            },
            ..o
        }),
        ServerMessage::ServerInviteReceived(invite) => invite_arrived(o, n, invite.from_user.username@, invite.server.name@),
        ServerMessage::ServerInviteResponse { accepted, user, .. } => invite_answered(o, n, accepted, user.username@),
        ServerMessage::UserJoined(user) => user_joined(o, n, user),
        ServerMessage::UserLeft(id) => user_left(o, n, id),
        ServerMessage::NewChannelMessage(m) => channel_message_arrived(o, n, m),
        ServerMessage::ChannelMessages { channel_id, messages, history_complete } =>
            channel_page(o, n, channel_id, messages@, history_complete, false),
        ServerMessage::DirectMessages { user_id, messages, history_complete } =>
            dm_page(o, n, user_id, messages@, history_complete, false),
        ServerMessage::ChannelMessagesPaginated { channel_id, messages, has_more } =>
            channel_page(o, n, channel_id, messages@, !has_more, true),
        ServerMessage::DirectMessagesPaginated { user_id, messages, has_more } =>
            dm_page(o, n, user_id, messages@, !has_more, true),
        ServerMessage::CacheStats { .. } => n == o,
        ServerMessage::ImageCacheInvalidated { .. } => n == o,
        ServerMessage::PerformanceMetrics { query_time_ms, .. } => metrics_arrived(o, n, query_time_ms),
        ServerMessage::UserAvatars { avatars } => avatars_arrived(o, n, avatars@),
    }
}


impl App {
    /// A new list of forums (see `forums_arrived`).
    pub fn on_forums(&mut self, forums: Vec<Forum>)
        ensures
            forums_arrived(*old(self), *final(self), forums),
    {
        self.forum.forums = forums;
        let title = match (&self.forum.current_forum_id, &self.forum.pending_new_thread_title) {
            (Some(_), Some(t)) => t.clone(),
            _ => return,
        };
        let fi = match self.forum.forum_pos() {
            Some(fi) => fi,
            None => return,
        };
        let ghost threads = self.forum.forums@[fi as int].threads@;
        let mut i: usize = 0;
        let mut found: Option<usize> = None;
        assert(threads.skip(0) =~= threads);
        while i < self.forum.forums[fi].threads.len() && found.is_none()
            invariant
                fi < self.forum.forums@.len(),
                threads == self.forum.forums@[fi as int].threads@,
                i <= threads.len(),
                found is None ==> thread_titled(threads, title@) == match thread_titled(threads.skip(i as int), title@) {
                    Some(k) => Some(k + i),
                    None => None::<int>,
                },
                found matches Some(f) ==> thread_titled(threads, title@) == Some(f as int) && f < threads.len(),
            decreases threads.len() - i + (if found is None { 1int } else { 0int }),
        {
            if self.forum.forums[fi].threads[i].title == title {
                assert(threads.skip(i as int)[0] == threads[i as int]);
                found = Some(i);
            } else {
                assert(threads.skip(i as int).drop_first() =~= threads.skip(i + 1));
                i = i + 1;
            }
        }
        match found {
            None => {
                assert(threads.skip(i as int) =~= Seq::<Thread>::empty());
            },
            Some(idx) => {
                let thread_id = self.forum.forums[fi].threads[idx].id;
                self.forum.thread_list_state.select(Some(idx));
                self.forum.select_thread(thread_id);
                self.ui.set_mode(AppMode::PostView);
                self.forum.clear_pending_thread();
            },
        }
    }

    /// Asks for the avatars of the users without a picture.
    fn request_avatars(&mut self)
        ensures
            *final(self) == (App { effects: final(self).effects, ..*old(self) }),
            avatars_requested(old(self).chat, old(self).effects@, final(self).effects@),
    {
        match self.chat_service.request_missing_avatars(&self.chat) {
            Some(m) => {
                let ghost e0 = self.effects@;
                self.send_to_server(m);
                assert(self.effects@.drop_last() =~= e0);
            },
            None => {},
        }
    }

    /// A direct message (see `dm_arrived`).
    pub fn on_direct_message(&mut self, dm: DirectMessage)
        ensures
            dm_arrived(*old(self), *final(self), dm),
    {
        let is_current = match self.chat.current_chat_target {
            Some(ChatTarget::DM { user_id }) => self.auth.current_user.is_some() && (user_id == dm.from || user_id == dm.to)
                && self.chat.sidebar_tab == SidebarTab::DMs,
            _ => false,
        };
        if is_current {
            self.chat.dm_messages.push(dm);
            self.chat.reset_scroll_offset();
            return;
        }
        let to_me = match &self.auth.current_user {
            Some(me) => dm.to == me.id,
            None => false,
        };
        if !to_me {
            return;
        }
        let (author, pic): (String, Option<String>) = match crate::services::chat::find_user_in(&self.chat.dm_user_list, dm.from) {
            Some(u) => (u.username.clone(), crate::model::copy_opt_string(&u.profile_pic)),
            None => match &self.auth.current_user {
                Some(me) => if me.id == dm.from {
                    (me.username.clone(), crate::model::copy_opt_string(&me.profile_pic))
                } else {
                    (crate::services::chat::fallback_name_of(dm.from), None)
                },
                None => (crate::services::chat::fallback_name_of(dm.from), None),
            },
        };
        assert(author@ == dm_author(*old(self), dm.from).0 && opt_text(pic) == dm_author(*old(self), dm.from).1);
        self.chat.unread_dm_conversations.insert(dm.from);
        let t1 = crate::text::concat_str("DM from ", author.as_str());
        let t2 = crate::text::concat_str(t1.as_str(), ": ");
        let text = crate::text::concat_str(t2.as_str(), dm.content.as_str());
        self.set_notification(text, Some(4000), true);
        let ghost e0 = self.effects@;
        if preview_fits(dm.content.as_str()) {
            let d = DesktopNotificationService::show_dm_notification(author.as_str(), dm.content.as_str(), pic.as_ref());
            self.desktop(d);
            assert(self.effects@.take(e0.len() as int) =~= e0);
            assert(self.effects@.skip(e0.len() as int + 1) =~= Seq::<Effect>::empty());
        } else {
            assert(self.effects@ =~= e0 + Seq::<Effect>::empty());
        }
    }
}


impl App {
    /// Sets the status of the first user with the identifier.
    fn set_status(users: &mut Vec<User>, id: u128, st: UserStatus)
        ensures
            final(users)@ == set_first_status(old(users)@, id, st),
    {
        match user_pos_in(users, id) {
            Some(i) => {
                let mut u = users[i].duplicate();
                u.status = st;
                users.set(i, u);
            },
            None => {},
        }
    }

    /// Sets the picture of the first user with the identifier.
    fn set_pic(users: &mut Vec<User>, id: u128, pic: &Option<String>)
        ensures
            final(users)@ == set_first_pic(old(users)@, id, *pic),
    {
        match user_pos_in(users, id) {
            Some(i) => {
                let mut u = users[i].duplicate();
                u.profile_pic = crate::model::copy_opt_string(pic);
                users.set(i, u);
            },
            None => {},
        }
    }

    /// A page of the history of a channel (see `channel_page`).
    fn on_channel_page(&mut self, channel_id: u128, messages: Vec<ChannelMessage>, complete: bool, preload: bool)
        ensures
            channel_page(*old(self), *final(self), channel_id, messages@, complete, preload),
    {
        let current = match self.chat.current_chat_target {
            Some(ChatTarget::Channel { channel_id: c, .. }) => c == channel_id,
            _ => false,
        };
        if !current {
            return;
        }
        if self.chat.chat_messages.len() == 0 {
            self.chat.chat_messages = messages;
        } else {
            let mut all = messages;
            let mut loaded: Vec<ChannelMessage> = Vec::new();
            std::mem::swap(&mut loaded, &mut self.chat.chat_messages);
            all.append(&mut loaded);
            self.chat.chat_messages = all;
        }
        self.chat.channel_history_complete.insert(channel_id, complete);
        if preload {
            self.chat_service.preload_conversation_images(&self.chat);
        }
    }

    /// A page of the history of a direct conversation (see `dm_page`).
    fn on_dm_page(&mut self, user_id: u128, messages: Vec<DirectMessage>, complete: bool, preload: bool)
        ensures
            dm_page(*old(self), *final(self), user_id, messages@, complete, preload),
    {
        let current = match self.chat.current_chat_target {
            Some(ChatTarget::DM { user_id: u }) => u == user_id,
            _ => false,
        };
        if !current {
            return;
        }
        if self.chat.dm_messages.len() == 0 {
            self.chat.dm_messages = messages;
        } else {
            let mut all = messages;
            let mut loaded: Vec<DirectMessage> = Vec::new();
            std::mem::swap(&mut loaded, &mut self.chat.dm_messages);
            all.append(&mut loaded);
            self.chat.dm_messages = all;
        }
        self.chat.dm_history_complete = complete;
        if preload {
            self.chat_service.preload_conversation_images(&self.chat);
        }
    }

    /// A notice from the server (see `notice_arrived`).
    fn on_notice(&mut self, text: String, is_error: bool)
        ensures
            notice_arrived(*old(self), *final(self), text@, is_error),
    {
        let shown = if is_error {
            crate::text::concat_str("Error: ", text.as_str())
        } else {
            crate::text::concat_str("Info: ", text.as_str())
        };
        self.set_notification(shown, Some(2000), false);
        let t = chars_of(text.as_str());
        let saved_text = contains_chars(t.as_slice(), chars_of("Profile updated successfully").as_slice());
        let worth = saved_text || contains_chars(t.as_slice(), chars_of("Server invite").as_slice())
            || contains_chars(t.as_slice(), chars_of("connected").as_slice())
            || contains_chars(t.as_slice(), chars_of("disconnected").as_slice());
        let ghost e0 = self.effects@;
        if is_error {
            self.desktop(DesktopNotificationService::show_error_notification(text.as_str()));
        } else if worth {
            self.desktop(DesktopNotificationService::show_info_notification(text.as_str()));
        }
        let ghost e1 = self.effects@;
        if !is_error && saved_text {
            self.play(SoundType::Save);
            if self.ui.mode == AppMode::EditProfile {
                self.ui.set_mode(AppMode::Settings);
            }
        }
        proof {
            let saved = !is_error && saved_text;
            let after: Seq<Effect> = if saved { seq![Effect::Play(SoundType::Save)] } else { Seq::empty() };
            assert(self.effects@ =~= e1 + after);
            if is_error || worth {
                assert(e1.len() == e0.len() + 1);
                assert(self.effects@.take(e0.len() as int) =~= e0);
                assert(self.effects@.skip(e0.len() as int + 1) =~= after);
                assert(self.effects@[e0.len() as int] == e1.last());
            } else {
                assert(e1 == e0);
            }
        }
    }

    /// Received avatars: each sets the picture of the first user with its
    /// identifier in both lists and remakes that user's avatar images.
    fn on_avatars(&mut self, avatars: Vec<(u128, Option<String>)>)
        ensures
            *final(self) == (App {
                chat: ChatState {
                    channel_userlist: final(self).chat.channel_userlist,
                    dm_user_list: final(self).chat.dm_user_list,
                    ..old(self).chat
                },
                effects: final(self).effects,
                ..*old(self)
            }),
            final(self).chat.channel_userlist@ == avatars_applied(old(self).chat.channel_userlist@, avatars@),
            final(self).chat.dm_user_list@ == avatars_applied(old(self).chat.dm_user_list@, avatars@),
            queued(*old(self), *final(self), Seq::new(avatars@.len(), |i: int| Effect::InvalidateAvatar(avatars@[i].0))),
    {
        let ghost o = *self;
        let mut k: usize = 0;
        while k < avatars.len()
            invariant
                k <= avatars@.len(),
                *self == (App {
                    chat: ChatState {
                        channel_userlist: self.chat.channel_userlist,
                        dm_user_list: self.chat.dm_user_list,
                        ..o.chat
                    },
                    effects: self.effects,
                    ..o
                }),
                self.chat.channel_userlist@ == avatars_applied(o.chat.channel_userlist@, avatars@.take(k as int)),
                self.chat.dm_user_list@ == avatars_applied(o.chat.dm_user_list@, avatars@.take(k as int)),
                self.effects@ == o.effects@ + Seq::new(k as nat, |i: int| Effect::InvalidateAvatar(avatars@[i].0)),
            decreases avatars.len() - k,
        {
            proof {
                assert(avatars@.take(k + 1).drop_last() =~= avatars@.take(k as int));
                assert(avatars@.take(k + 1).last() == avatars@[k as int]);
            }
            let id = avatars[k].0;
            Self::set_pic(&mut self.chat.channel_userlist, id, &avatars[k].1);
            Self::set_pic(&mut self.chat.dm_user_list, id, &avatars[k].1);
            let ghost e0 = self.effects@;
            self.effects.push(Effect::InvalidateAvatar(id));
            k = k + 1;
            assert(self.effects@ =~= o.effects@ + Seq::new(k as nat, |i: int| Effect::InvalidateAvatar(avatars@[i].0)));
        }
        assert(avatars@.take(avatars@.len() as int) =~= avatars@);
    }

    fn on_auth_success(&mut self, user: User)
        ensures
            auth_succeeded(*old(self), *final(self), user),
    {
        self.auth.login(user);
        self.ui.set_mode(AppMode::MainMenu);
        self.ui.reset_selections();
        self.play(SoundType::LoginSuccess);
    }

    fn on_auth_failure(&mut self, reason: String)
        ensures
            auth_failed(*old(self), *final(self), reason@),
    {
        self.set_notification(crate::text::concat_str("Error: ", reason.as_str()), None, false);
        self.play(SoundType::LoginFailure);
    }

    fn on_profile(&mut self, profile: UserProfile)
        ensures
            profile_arrived(*old(self), *final(self), profile),
    {
        if self.profile.profile_requested_by_user {
            self.profile.set_profile_for_viewing(profile);
        } else {
            self.profile.load_profile_for_editing(&profile);
        }
        self.profile.profile_requested_by_user = false;
    }

    fn on_user_updated(&mut self, user: User)
        ensures
            user_updated(*old(self), *final(self), user),
    {
        match user_pos_in(&self.chat.channel_userlist, user.id) {
            Some(i) => self.chat.channel_userlist.set(i, user.duplicate()),
            None => {},
        }
        let same = match &self.auth.current_user {
            Some(me) => me.id == user.id,
            None => false,
        };
        if same {
            self.auth.current_user = Some(user.duplicate());
        }
        let ghost e0 = self.effects@;
        self.effects.push(Effect::InvalidateAvatar(user.id));
        assert(self.effects@ =~= e0 + seq![Effect::InvalidateAvatar(user.id)]);
    }

    fn on_servers(&mut self, servers: Vec<Server>)
        ensures
            servers_arrived(*old(self), *final(self), servers),
    {
        self.chat.servers = servers;
        if self.ui.mode == AppMode::Chat && self.chat.sidebar_tab == SidebarTab::Servers {
            self.select_and_load_first_chat();
        }
    }

    fn on_channel_users(&mut self, users: Vec<User>)
        ensures
            channel_users_arrived(*old(self), *final(self), users@),
    {
        let sorted = sort_users(users);
        let any = sorted.len() > 0;
        self.chat.channel_userlist = sorted;
        if any {
            self.chat.user_list_state.select(Some(0));
        } else {
            self.chat.user_list_state.select(None);
        }
        self.request_avatars();
    }

    fn on_dm_users(&mut self, users: Vec<User>)
        ensures
            dm_users_arrived(*old(self), *final(self), users),
    {
        self.chat.dm_user_list = users;
        if self.ui.mode == AppMode::Chat && self.chat.sidebar_tab == SidebarTab::DMs {
            self.select_and_load_first_chat();
        }
        let ghost m = *self;
        self.request_avatars();
        assert(avatars_requested(m.chat, m.effects@, self.effects@));
    }

    fn on_mention(&mut self, from: User, content: String)
        ensures
            mention_arrived(*old(self), *final(self), from, content@),
    {
        let t1 = crate::text::concat_str("Mentioned by ", from.username.as_str());
        let t2 = crate::text::concat_str(t1.as_str(), ": ");
        self.set_notification(crate::text::concat_str(t2.as_str(), content.as_str()), Some(4000), true);
        let ghost e0 = self.effects@;
        let fits = preview_fits(content.as_str());
        if fits {
            let pic: Option<&str> = match &from.profile_pic {
                Some(p) => Some(p.as_str()),
                None => None,
            };
            self.desktop(DesktopNotificationService::show_mention_notification(from.username.as_str(), content.as_str(), pic));
        }
        let ghost e1 = self.effects@;
        self.play(SoundType::Mention);
        proof {
            if fits {
                assert(self.effects@.take(e0.len() as int) =~= e0);
                assert(self.effects@.skip(e0.len() as int + 1) =~= seq![Effect::Play(SoundType::Mention)]);
                assert(self.effects@[e0.len() as int] == e1.last());
            } else {
                assert(self.effects@ =~= e0 + seq![Effect::Play(SoundType::Mention)]);
            }
        }
    }

    fn on_forum_reply(&mut self, thread_id: u128, from_username: String, message: String, pic: Option<String>)
        ensures
            forum_reply_arrived(*old(self), *final(self), thread_id, from_username@, message@, opt_text(pic)),
    {
        let viewing = match self.forum.current_thread_id {
            Some(t) => t == thread_id && self.ui.mode == AppMode::PostView,
            None => false,
        };
        if viewing {
            return;
        }
        self.set_notification(
            crate::text::concat_str(from_username.as_str(), " replied to your forum post"),
            Some(4000),
            true,
        );
        let ghost e0 = self.effects@;
        let fits = preview_fits(message.as_str());
        if fits {
            self.desktop(DesktopNotificationService::show_dm_notification(from_username.as_str(), message.as_str(), pic.as_ref()));
        }
        let ghost e1 = self.effects@;
        self.play(SoundType::Mention);
        proof {
            if fits {
                assert(self.effects@.take(e0.len() as int) =~= e0);
                assert(self.effects@.skip(e0.len() as int + 1) =~= seq![Effect::Play(SoundType::Mention)]);
                assert(self.effects@[e0.len() as int] == e1.last());
            } else {
                assert(self.effects@ =~= e0 + seq![Effect::Play(SoundType::Mention)]);
            }
        }
    }

    fn on_invite(&mut self, from: &str, server: &str)
        ensures
            invite_arrived(*old(self), *final(self), from@, server@),
    {
        let t1 = crate::text::concat_str("Server invite from ", from);
        let t2 = crate::text::concat_str(t1.as_str(), " to join '");
        let t3 = crate::text::concat_str(t2.as_str(), server);
        self.set_notification(crate::text::concat_str(t3.as_str(), "'"), Some(5000), false);
        let ghost e0 = self.effects@;
        self.desktop(DesktopNotificationService::show_server_invite_notification(from, server));
        self.play(SoundType::PopupOpen);
        assert(self.effects@.take(e0.len() as int) =~= e0);
    }

    fn on_invite_response(&mut self, accepted: bool, name: &str)
        ensures
            invite_answered(*old(self), *final(self), accepted, name@),
    {
        let status = if accepted { " accepted" } else { " declined" };
        let t1 = crate::text::concat_str(name, status);
        self.set_notification(crate::text::concat_str(t1.as_str(), " your server invite"), Some(3000), false);
    }

    fn on_user_joined(&mut self, user: User)
        ensures
            user_joined(*old(self), *final(self), user),
    {
        match user_pos_in(&self.chat.channel_userlist, user.id) {
            Some(_) => Self::set_status(&mut self.chat.channel_userlist, user.id, user.status),
            None => self.chat.channel_userlist.push(user.duplicate()),
        }
        Self::set_status(&mut self.chat.dm_user_list, user.id, user.status);
    }

    fn on_user_left(&mut self, id: u128)
        ensures
            user_left(*old(self), *final(self), id),
    {
        Self::set_status(&mut self.chat.channel_userlist, id, UserStatus::Offline);
        Self::set_status(&mut self.chat.dm_user_list, id, UserStatus::Offline);
    }

    fn on_channel_message(&mut self, m: ChannelMessage)
        ensures
            channel_message_arrived(*old(self), *final(self), m),
    {
        let current = match self.chat.current_chat_target {
            Some(ChatTarget::Channel { channel_id, .. }) => channel_id == m.channel_id,
            _ => false,
        };
        if current {
            self.chat.chat_messages.push(m);
            self.chat.reset_scroll_offset();
            self.play(SoundType::ReceiveChannelMessage);
        } else {
            self.chat.unread_channels.insert(m.channel_id);
        }
    }

    fn on_metrics(&mut self, query_time_ms: u64)
        ensures
            metrics_arrived(*old(self), *final(self), query_time_ms),
    {
        if query_time_ms > 1000 {
            self.set_notification("Slow network detected".to_string(), Some(2000), false);
        }
    }

    /// Handles a message from the server (see `server_message_outcome`).
    pub fn handle_server_message(&mut self, msg: ServerMessage)
        ensures
            server_message_outcome(*old(self), *final(self), msg),
    {
        match msg {
            ServerMessage::AuthSuccess(user) => self.on_auth_success(user),
            ServerMessage::AuthFailure(reason) => self.on_auth_failure(reason),
            ServerMessage::Forums(forums) => self.on_forums(forums),
            ServerMessage::ForumsLightweight(light) => {
                let forums = forums_of_light(light);
                self.on_forums(forums);
            },
            ServerMessage::Profile(profile) => self.on_profile(profile),
            ServerMessage::UserUpdated(user) => self.on_user_updated(user),
            ServerMessage::Servers(servers) => self.on_servers(servers),
            ServerMessage::ChannelUserList { users, .. } => self.on_channel_users(users),
            ServerMessage::DMUserList(users) => self.on_dm_users(users),
            ServerMessage::DirectMessage(dm) => self.on_direct_message(dm),
            ServerMessage::MentionNotification { from, content } => self.on_mention(from, content),
            ServerMessage::ForumReplyNotification { thread_id, from_username, message, from_user_profile_pic } =>
                self.on_forum_reply(thread_id, from_username, message, from_user_profile_pic),
            ServerMessage::Notification(text, is_error) => self.on_notice(text, is_error),
            ServerMessage::Notifications { notifications, history_complete } => {
                self.notifications.notifications = notifications;
                self.notifications.notification_history_complete = history_complete;
            },
            ServerMessage::ServerInviteReceived(invite) =>
                self.on_invite(invite.from_user.username.as_str(), invite.server.name.as_str()),
            ServerMessage::ServerInviteResponse { accepted, user, .. } => self.on_invite_response(accepted, user.username.as_str()),
            ServerMessage::UserJoined(user) => self.on_user_joined(user),
            ServerMessage::UserLeft(id) => self.on_user_left(id),
            ServerMessage::NewChannelMessage(m) => self.on_channel_message(m),
            ServerMessage::ChannelMessages { channel_id, messages, history_complete } =>
                self.on_channel_page(channel_id, messages, history_complete, false),
            ServerMessage::DirectMessages { user_id, messages, history_complete } =>
                self.on_dm_page(user_id, messages, history_complete, false),
            ServerMessage::ChannelMessagesPaginated { channel_id, messages, has_more } =>
                self.on_channel_page(channel_id, messages, !has_more, true),
            ServerMessage::DirectMessagesPaginated { user_id, messages, has_more } =>
                self.on_dm_page(user_id, messages, !has_more, true),
            ServerMessage::CacheStats { .. } => {},
            ServerMessage::ImageCacheInvalidated { .. } => {},
            ServerMessage::PerformanceMetrics { query_time_ms, .. } => self.on_metrics(query_time_ms),
            ServerMessage::UserAvatars { avatars } => self.on_avatars(avatars),
        }
    }
}

} // verus!
