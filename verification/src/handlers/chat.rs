//! Keys of the chat screen: the sidebar of servers and conversations, the
//! messages and the draft, the channel's user list, the direct-message
//! input, and the popups over them.

use vstd::prelude::*;
use crate::app::{
    App, Effect, queued, shows, loaded_first_chat, draft_set,
    mentions_updated, emojis_updated, mention_applied, emoji_applied, sent_message,
};
use crate::handlers::navigation::{next_index, prev_index, sel};
use crate::input::{KeyCode, KeyEvent};
use crate::model::{ClientMessage, User};
use crate::services::chat::{ChatService, lemma_preloaded_same_people, preloaded, should_fetch_spec};
use crate::services::message::message_is_valid;
use crate::sound::SoundType;
use crate::state::chat::{ChatFocus, ChatState, ChatTarget, SidebarTab, current_draft};
use crate::state::profile::ProfileState;
use crate::state::ui::{AppMode, UiState};
use crate::state::ListSelection;
use crate::text::{chars_of, chars_lt, lex_lt, trim, trim_chars, pop_char, push_char};

verus! {

broadcast use vstd::std_specs::hash::group_hash_axioms;

// ---------------------------------------------------------------------
// The emoji grid: four columns, five rows a page
// ---------------------------------------------------------------------

/// The suggestion selected after moving down in the grid.
pub open spec fn emoji_down(s: int, len: int) -> int {
    let r = s % 20;
    if r < 16 {
        if s + 4 < len { s + 4 } else { s }
    } else {
        let next_page = s - r + 20;
        if next_page < len {
            if next_page + s % 4 <= len - 1 { next_page + s % 4 } else { len - 1 }
        } else {
            s
        }
    }
}

/// The suggestion selected after moving up in the grid.
pub open spec fn emoji_up(s: int, len: int) -> int {
    if s % 20 >= 4 {
        s - 4
    } else if s >= 20 {
        if s - 4 <= len - 1 { s - 4 } else { len - 1 }
    } else {
        s
    }
}

/// The suggestion selected after moving left in the grid (wrapping within
/// the row).
pub open spec fn emoji_left(s: int, len: int) -> int {
    if s % 4 > 0 {
        s - 1
    } else if s + 3 < len {
        s + 3
    } else {
        s
    }
}

/// The suggestion selected after moving right in the grid (wrapping within
/// the row).
pub open spec fn emoji_right(s: int, len: int) -> int {
    if s % 4 < 3 {
        if s + 1 < len { s + 1 } else { s }
    } else {
        s - 3
    }
}

fn grid_parts(s: usize) -> (r: (usize, usize, usize))
    ensures
        r.0 == s % 20,
        r.1 == (s % 20) / 4,
        r.2 == s % 4,
        (s % 20) % 4 == s % 4,
        s % 20 <= s,
{
    let rem = s % 20;
    let row = rem / 4;
    let col = rem % 4;
    assert((s as int % 20) % 4 == s as int % 4) by (nonlinear_arith)
        requires s >= 0;
    (rem, row, col)
}

fn emoji_down_of(s: usize, len: usize) -> (r: usize)
    requires
        len > 0,
    ensures
        r == emoji_down(s as int, len as int),
{
    let (rem, row, col) = grid_parts(s);
    if row < 4 {
        assert(rem < 16);
        if s < len && len - s > 4 { s + 4 } else { s }
    } else {
        let base = s - rem;
        if base <= usize::MAX - 20 && base + 20 < len {
            let np = base + 20;
            if col <= len - 1 - np { np + col } else { len - 1 }
        } else {
            s
        }
    }
}

fn emoji_up_of(s: usize, len: usize) -> (r: usize)
    requires
        len > 0,
    ensures
        r == emoji_up(s as int, len as int),
{
    let (rem, row, col) = grid_parts(s);
    if row > 0 {
        s - 4
    } else if s >= 20 {
        if s - 4 <= len - 1 { s - 4 } else { len - 1 }
    } else {
        s
    }
}

fn emoji_left_of(s: usize, len: usize) -> (r: usize)
    ensures
        r == emoji_left(s as int, len as int),
{
    let (rem, row, col) = grid_parts(s);
    if col > 0 {
        s - 1
    } else if s < len && len - s > 3 {
        s + 3
    } else {
        s
    }
}

fn emoji_right_of(s: usize, len: usize) -> (r: usize)
    ensures
        r == emoji_right(s as int, len as int),
{
    let (rem, row, col) = grid_parts(s);
    if col < 3 {
        if s < len && len - s > 1 { s + 1 } else { s }
    } else {
        s - 3
    }
}

// ---------------------------------------------------------------------
// Scrolling and fetching older messages
// ---------------------------------------------------------------------

/// The number of message rows shown, 20 until the first draw.
pub open spec fn rows_shown(c: ChatState) -> int {
    match c.last_chat_rows {
        Some(r) => r as int,
        None => 20,
    }
}

/// The number of messages of the conversation shown.
pub open spec fn shown_count(c: ChatState) -> int {
    match c.current_chat_target {
        Some(ChatTarget::Channel { .. }) => c.chat_messages@.len() as int,
        Some(ChatTarget::DM { .. }) => c.dm_messages@.len() as int,
        None => 0,
    }
}

/// The largest scroll offset.
pub open spec fn max_scroll(c: ChatState) -> int {
    if shown_count(c) > rows_shown(c) { shown_count(c) - rows_shown(c) } else { 0 }
}

/// The request for older messages that the chat state `c` calls for: when
/// the conversation shown wants more history and has messages, those
/// before its oldest one.
pub open spec fn older_request(c: ChatState) -> Option<ClientMessage> {
    if should_fetch_spec(c, rows_shown(c) as nat, 10) {
        match c.current_chat_target {
            Some(ChatTarget::Channel { channel_id, .. }) => if c.chat_messages@.len() > 0 {
                Some(ClientMessage::GetChannelMessages { channel_id, before: Some(c.chat_messages@[0].timestamp) })
            } else {
                None
            },
            Some(ChatTarget::DM { user_id }) => if c.dm_messages@.len() > 0 {
                Some(ClientMessage::GetDirectMessages { user_id, before: Some(c.dm_messages@[0].timestamp) })
            } else {
                None
            },
            None => None,
        }
    } else {
        None
    }
}

/// The chat rows fit the fetch computation.
pub open spec fn rows_ok(c: ChatState) -> bool {
    c.last_chat_rows matches Some(r) ==> r <= usize::MAX / 2
}

/// The chat is scrolled to `offset` and the older messages it calls for
/// are asked for.
pub open spec fn scrolled_and_fetched(o: App, n: App, offset: int) -> bool {
    let c = ChatState { chat_scroll_offset: offset as usize, ..o.chat };
    &&& n == (App { chat: c, effects: n.effects, ..o })
    &&& match older_request(c) {
        Some(m) => queued(o, n, seq![Effect::Send(m)]),
        None => n.effects == o.effects,
    }
}

fn rows_of(c: &ChatState) -> (r: usize)
    ensures
        r == rows_shown(*c),
{
    match c.last_chat_rows {
        Some(r) => r,
        None => 20,
    }
}

fn shown_count_of(app: &App) -> (r: usize)
    ensures
        r == shown_count(app.chat),
{
    let lines = app.get_current_message_list();
    lines.len()
}

/// Asks for the older messages that the chat state calls for.
fn fetch_older(app: &mut App)
    requires
        rows_ok(old(app).chat),
    ensures
        *final(app) == (App { effects: final(app).effects, ..*old(app) }),
        match older_request(old(app).chat) {
            Some(m) => queued(*old(app), *final(app), seq![Effect::Send(m)]),
            None => final(app).effects == old(app).effects,
        },
{
    let rows = rows_of(&app.chat);
    if ChatService::should_fetch_more_messages(&app.chat, rows) {
        match app.chat.current_chat_target {
            Some(ChatTarget::Channel { channel_id, .. }) => {
                if app.chat.chat_messages.len() > 0 {
                    let before = app.chat.chat_messages[0].timestamp;
                    app.send_to_server(ClientMessage::GetChannelMessages { channel_id, before: Some(before) });
                }
            },
            Some(ChatTarget::DM { user_id }) => {
                if app.chat.dm_messages.len() > 0 {
                    let before = app.chat.dm_messages[0].timestamp;
                    app.send_to_server(ClientMessage::GetDirectMessages { user_id, before: Some(before) });
                }
            },
            None => {},
        }
    }
}

/// Page up: scrolls a screen of rows up (at most to the oldest message)
/// and asks for older messages where needed; nothing without a
/// conversation.
pub open spec fn scrolled_up(o: App, n: App) -> bool {
    if o.chat.current_chat_target is None {
        n == o
    } else {
        let off = o.chat.chat_scroll_offset + rows_shown(o.chat);
        scrolled_and_fetched(o, n, if off <= max_scroll(o.chat) { off } else { max_scroll(o.chat) })
    }
}

fn handle_scroll_up(app: &mut App)
    requires
        rows_ok(old(app).chat),
    ensures
        scrolled_up(*old(app), *final(app)),
{
    if app.chat.current_chat_target.is_none() {
        return;
    }
    let rows = rows_of(&app.chat);
    let total = shown_count_of(app);
    let max = total.saturating_sub(rows);
    let off = app.chat.chat_scroll_offset;
    app.chat.chat_scroll_offset = if off >= max || rows >= max - off { max } else { off + rows };
    fetch_older(app);
}

/// Page down: scrolls a screen of rows down, at most to the newest.
pub open spec fn scrolled_down(o: App, n: App) -> bool {
    let r = rows_shown(o.chat);
    let off = o.chat.chat_scroll_offset as int;
    n == (App { chat: ChatState { chat_scroll_offset: (if off >= r { off - r } else { 0 }) as usize, ..o.chat }, ..o })
}

fn handle_scroll_down(app: &mut App)
    ensures
        scrolled_down(*old(app), *final(app)),
{
    let rows = rows_of(&app.chat);
    if app.chat.chat_scroll_offset >= rows {
        app.chat.chat_scroll_offset = app.chat.chat_scroll_offset - rows;
    } else {
        app.chat.chat_scroll_offset = 0;
    }
}


// ---------------------------------------------------------------------
// The sidebar selection
// ---------------------------------------------------------------------

/// The server and channel selected after moving down (`down`) or up in the
/// sidebar: over the channels of the server, then on to the first channel
/// of the next server (or the last channel of the previous one), wrapping;
/// a server without channels is passed at once. `None` when nothing moves.
pub open spec fn server_moved(c: ChatState, down: bool) -> Option<(Option<usize>, usize)> {
    let n = c.servers@.len() as int;
    let s = match c.selected_server { Some(s) => s as int, None => 0 };
    let k = match c.selected_channel { Some(k) => k as int, None => 0 };
    if n == 0 || s >= n {
        None
    } else {
        let chans = c.servers@[s].channels@.len() as int;
        if chans == 0 {
            Some((Some((if down { (s + 1) % n } else { (s + n - 1) % n }) as usize), 0usize))
        } else if down {
            if k < chans - 1 { Some((c.selected_server, (k + 1) as usize)) } else { Some((Some(((s + 1) % n) as usize), 0usize)) }
        } else if k > 0 {
            Some((c.selected_server, (k - 1) as usize))
        } else {
            let p = (s + n - 1) % n;
            let pc = c.servers@[p].channels@.len() as int;
            Some((Some(p as usize), if pc > 0 { (pc - 1) as usize } else { 0usize }))
        }
    }
}

fn move_server_selection(app: &mut App, down: bool)
    ensures
        *final(app) == match server_moved(old(app).chat, down) {
            Some((s, k)) => App { chat: ChatState { selected_server: s, selected_channel: Some(k), ..old(app).chat }, ..*old(app) },
            None => *old(app),
        },
{
    let n = app.chat.servers.len();
    if n == 0 {
        return;
    }
    let s = match app.chat.selected_server { Some(s) => s, None => 0 };
    let k = match app.chat.selected_channel { Some(k) => k, None => 0 };
    if s >= n {
        return;
    }
    let chans = app.chat.servers[s].channels.len();
    if chans == 0 {
        app.chat.selected_server = Some(if down { next_index(s, n) } else { prev_index(s, n) });
        app.chat.selected_channel = Some(0);
        return;
    }
    if down {
        if k < chans - 1 {
            app.chat.selected_channel = Some(k + 1);
        } else {
            app.chat.selected_server = Some(next_index(s, n));
            app.chat.selected_channel = Some(0);
        }
    } else {
        if k > 0 {
            app.chat.selected_channel = Some(k - 1);
        } else {
            let p = prev_index(s, n);
            app.chat.selected_server = Some(p);
            let pc = app.chat.servers[p].channels.len();
            app.chat.selected_channel = Some(if pc > 0 { pc - 1 } else { 0 });
        }
    }
}

/// The key by which the direct-message list is shown: unread
/// conversations first, then by name.
pub open spec fn dm_key_lt(c: ChatState, a: int, b: int) -> bool {
    let ua = c.unread_dm_conversations@.contains(c.dm_user_list@[a].id);
    let ub = c.unread_dm_conversations@.contains(c.dm_user_list@[b].id);
    if ua != ub { ua } else { lex_lt(c.dm_user_list@[a].username@, c.dm_user_list@[b].username@) }
}

/// Inserts position `x` after the positions whose key is not greater.
pub open spec fn insert_by_key(c: ChatState, x: int, s: Seq<int>) -> Seq<int>
    decreases s.len(),
{
    if s.len() == 0 {
        seq![x]
    } else if dm_key_lt(c, x, s[0]) {
        seq![x] + s
    } else {
        seq![s[0]] + insert_by_key(c, x, s.drop_first())
    }
}

/// The positions of the first `k` users of the direct-message list in the
/// order they are shown (a stable sort by `dm_key_lt`).
pub open spec fn dm_order_upto(c: ChatState, k: int) -> Seq<int>
    decreases k,
{
    if k <= 0 {
        Seq::empty()
    } else {
        insert_by_key(c, k - 1, dm_order_upto(c, k - 1))
    }
}

/// The positions of the users of the direct-message list in the order they
/// are shown.
pub open spec fn dm_order(c: ChatState) -> Seq<int> {
    dm_order_upto(c, c.dm_user_list@.len() as int)
}

proof fn lemma_insert_by_key_at(c: ChatState, x: int, s: Seq<int>, k: int)
    requires
        0 <= k <= s.len(),
        forall|j: int| 0 <= j < k ==> !dm_key_lt(c, x, #[trigger] s[j]),
        k == s.len() || dm_key_lt(c, x, s[k]),
    ensures
        insert_by_key(c, x, s) == s.take(k) + seq![x] + s.skip(k),
    decreases s.len(),
{
    if s.len() == 0 {
        assert(s.take(k) + seq![x] + s.skip(k) =~= seq![x]);
    } else if k == 0 {
        assert(s.take(k) + seq![x] + s.skip(k) =~= seq![x] + s);
    } else {
        let t = s.drop_first();
        assert forall|j: int| 0 <= j < k - 1 implies !dm_key_lt(c, x, #[trigger] t[j]) by {
            assert(t[j] == s[j + 1]);
        }
        if k - 1 < t.len() {
            assert(t[k - 1] == s[k]);
        }
        lemma_insert_by_key_at(c, x, t, k - 1);
        assert(s.take(k) + seq![x] + s.skip(k) =~= seq![s[0]] + (t.take(k - 1) + seq![x] + t.skip(k - 1)));
    }
}

proof fn lemma_insert_by_key_len(c: ChatState, x: int, s: Seq<int>)
    ensures
        insert_by_key(c, x, s).len() == s.len() + 1,
        forall|j: int| 0 <= j < s.len() + 1 ==> #[trigger] insert_by_key(c, x, s)[j] == x
            || s.contains(insert_by_key(c, x, s)[j]),
    decreases s.len(),
{
    if s.len() > 0 && !dm_key_lt(c, x, s[0]) {
        lemma_insert_by_key_len(c, x, s.drop_first());
        let r = insert_by_key(c, x, s);
        assert forall|j: int| 0 <= j < s.len() + 1 implies #[trigger] r[j] == x || s.contains(r[j]) by {
            if j > 0 {
                let t = s.drop_first();
                assert(r[j] == insert_by_key(c, x, t)[j - 1]);
                if t.contains(r[j]) {
                    let i = choose|i: int| 0 <= i < t.len() && t[i] == r[j];
                    assert(s[i + 1] == r[j]);
                }
            } else {
                assert(s[0] == r[0]);
            }
        }
    } else if s.len() > 0 {
        let r = insert_by_key(c, x, s);
        assert forall|j: int| 0 <= j < s.len() + 1 implies #[trigger] r[j] == x || s.contains(r[j]) by {
            if j > 0 {
                assert(r[j] == s[j - 1]);
            }
        }
    }
}

proof fn lemma_dm_order_facts(c: ChatState, k: int)
    requires
        0 <= k,
    ensures
        dm_order_upto(c, k).len() == k,
        forall|j: int| 0 <= j < k ==> 0 <= #[trigger] dm_order_upto(c, k)[j] < k,
    decreases k,
{
    if k > 0 {
        lemma_dm_order_facts(c, k - 1);
        lemma_insert_by_key_len(c, k - 1, dm_order_upto(c, k - 1));
        let s = dm_order_upto(c, k - 1);
        assert forall|j: int| 0 <= j < k implies 0 <= #[trigger] dm_order_upto(c, k)[j] < k by {
            let v = dm_order_upto(c, k)[j];
            if v != k - 1 {
                assert(s.contains(v));
                let i = choose|i: int| 0 <= i < s.len() && s[i] == v;
                assert(0 <= s[i] < k - 1);
            }
        }
    }
}

fn dm_key_less(app: &App, a: usize, b: usize) -> (r: bool)
    requires
        a < app.chat.dm_user_list@.len(),
        b < app.chat.dm_user_list@.len(),
    ensures
        r == dm_key_lt(app.chat, a as int, b as int),
{
    let ua = app.chat.unread_dm_conversations.contains(&app.chat.dm_user_list[a].id);
    let ub = app.chat.unread_dm_conversations.contains(&app.chat.dm_user_list[b].id);
    if ua != ub {
        ua
    } else {
        chars_lt(
            chars_of(app.chat.dm_user_list[a].username.as_str()).as_slice(),
            chars_of(app.chat.dm_user_list[b].username.as_str()).as_slice(),
        )
    }
}

/// The positions of the direct-message users in the order shown.
pub fn dm_display_order(app: &App) -> (r: Vec<usize>)
    ensures
        r@.len() == dm_order(app.chat).len(),
        forall|j: int| 0 <= j < r@.len() ==> r@[j] as int == #[trigger] dm_order(app.chat)[j],
{
    let n = app.chat.dm_user_list.len();
    let mut r: Vec<usize> = Vec::new();
    let mut i: usize = 0;
    while i < n
        invariant
            i <= n,
            n == app.chat.dm_user_list@.len(),
            r@.len() == i,
            forall|j: int| 0 <= j < i ==> r@[j] as int == #[trigger] dm_order_upto(app.chat, i as int)[j],
        decreases n - i,
    {
        proof {
            lemma_dm_order_facts(app.chat, i as int);
        }
        let ghost s = dm_order_upto(app.chat, i as int);
        let mut k: usize = 0;
        let mut found = false;
        while k < r.len() && !found
            invariant
                k <= r@.len(),
                r@.len() == i,
                i < n,
                n == app.chat.dm_user_list@.len(),
                s == dm_order_upto(app.chat, i as int),
                s.len() == i,
                forall|j: int| 0 <= j < i ==> 0 <= #[trigger] s[j] < i,
                forall|j: int| 0 <= j < i ==> r@[j] as int == #[trigger] s[j],
                forall|j: int| 0 <= j < k ==> !dm_key_lt(app.chat, i as int, #[trigger] s[j]),
                found ==> k < r@.len() && dm_key_lt(app.chat, i as int, s[k as int]),
            decreases r@.len() - k + (if found { 0int } else { 1int }),
        {
            assert(r@[k as int] as int == s[k as int]);
            if dm_key_less(app, i, r[k]) {
                found = true;
            } else {
                k = k + 1;
            }
        }
        proof {
            lemma_insert_by_key_at(app.chat, i as int, s, k as int);
        }
        let ghost old_r = r@;
        r.insert(k, i);
        i = i + 1;
        proof {
            let t = dm_order_upto(app.chat, i as int);
            assert(t == s.take(k as int) + seq![(i - 1) as int] + s.skip(k as int));
            assert forall|j: int| 0 <= j < i implies r@[j] as int == #[trigger] dm_order_upto(app.chat, i as int)[j] by {
                if j < k {
                    assert(r@[j] == old_r[j]);
                } else if j > k {
                    assert(r@[j] == old_r[j - 1]);
                }
            }
        }
    }
    proof {
        lemma_dm_order_facts(app.chat, n as int);
    }
    r
}

/// The direct-message user selected after moving down (`down`) or up in
/// the order shown, wrapping; `None` when the list is empty.
pub open spec fn dm_moved(c: ChatState, down: bool) -> Option<usize> {
    let order = dm_order(c);
    let len = order.len() as int;
    if len == 0 {
        None
    } else {
        let cur = match c.selected_dm_user {
            Some(i) => if exists|j: int| 0 <= j < len && order[j] == i as int {
                choose|j: int| 0 <= j < len && order[j] == i as int && forall|m: int| 0 <= m < j ==> order[m] != i as int
            } else {
                0
            },
            None => 0,
        };
        let k = if down { (cur + 1) % len } else { (cur + len - 1) % len };
        Some(order[k] as usize)
    }
}

fn move_dm_selection(app: &mut App, down: bool)
    ensures
        *final(app) == match dm_moved(old(app).chat, down) {
            Some(i) => App { chat: ChatState { selected_dm_user: Some(i), ..old(app).chat }, ..*old(app) },
            None => *old(app),
        },
{
    if app.chat.dm_user_list.len() == 0 {
        proof {
            assert(dm_order(app.chat) =~= Seq::<int>::empty());
        }
        return;
    }
    let order = dm_display_order(app);
    proof {
        lemma_dm_order_facts(app.chat, app.chat.dm_user_list@.len() as int);
    }
    let ghost ord = dm_order(app.chat);
    let len = order.len();
    let cur = match app.chat.selected_dm_user {
        Some(selected) => {
            let mut j: usize = 0;
            let mut pos: Option<usize> = None;
            while j < len && pos.is_none()
                invariant
                    j <= len,
                    len == order@.len(),
                    len == ord.len(),
                    forall|m: int| 0 <= m < len ==> order@[m] as int == #[trigger] ord[m],
                    pos is None ==> forall|m: int| 0 <= m < j ==> ord[m] != selected as int,
                    pos matches Some(p) ==> p < len && ord[p as int] == selected as int
                        && forall|m: int| 0 <= m < p ==> ord[m] != selected as int,
                decreases len - j + (if pos is None { 1int } else { 0int }),
            {
                if order[j] == selected {
                    pos = Some(j);
                } else {
                    j = j + 1;
                }
            }
            match pos {
                Some(p) => {
                    proof {
                        let q = choose|q: int| 0 <= q < ord.len() && ord[q] == selected as int
                            && forall|m: int| 0 <= m < q ==> ord[m] != selected as int;
                        if q < p {
                        } else if q > p {
                            assert(ord[p as int] != selected as int);
                        }
                    }
                    p
                },
                None => 0,
            }
        },
        None => 0,
    };
    let k = if down { next_index(cur, len) } else { prev_index(cur, len) };
    assert(order@[k as int] as int == ord[k as int]);
    app.chat.selected_dm_user = Some(order[k]);
}

/// Opens the conversation selected in the sidebar: its old messages are
/// dropped, the view is scrolled to the newest, its messages (and for a
/// channel its users) are asked for, a direct conversation is marked read,
/// and the channel sound plays; nothing happens when the selection is
/// missing.
pub open spec fn sidebar_target_selected(o: App, n: App) -> bool {
    let c = o.chat;
    match c.sidebar_tab {
        SidebarTab::Servers => match (c.selected_server, c.selected_channel) {
            (Some(s), Some(k)) => if s < c.servers@.len() && k < c.servers@[s as int].channels@.len() {
                let ch = c.servers@[s as int].channels@[k as int];
                &&& n == (App {
                    chat: ChatState {
                        chat_messages: n.chat.chat_messages,
                        current_chat_target: Some(ChatTarget::Channel { server_id: ch.server_id, channel_id: ch.id }),
                        chat_scroll_offset: 0,
                        ..c
                    },
                    chat_service: n.chat_service,
                    effects: n.effects,
                    ..o
                })
                &&& n.chat.chat_messages@.len() == 0
                &&& preloaded(o.chat_service, n.chat_service, n.chat)
                &&& queued(o, n, seq![
                    Effect::Send(ClientMessage::GetChannelMessages { channel_id: ch.id, before: None }),
                    Effect::Send(ClientMessage::GetChannelUserList { channel_id: ch.id }),
                    Effect::Play(SoundType::ChangeChannel),
                ])
            } else {
                n == o
            },
            _ => n == o,
        },
        SidebarTab::DMs => match c.selected_dm_user {
            Some(i) => if i < c.dm_user_list@.len() {
                let uid = c.dm_user_list@[i as int].id;
                &&& n == (App {
                    chat: ChatState {
                        dm_messages: n.chat.dm_messages,
                        current_chat_target: Some(ChatTarget::DM { user_id: uid }),
                        chat_scroll_offset: 0,
                        unread_dm_conversations: n.chat.unread_dm_conversations,
                        ..c
                    },
                    chat_service: n.chat_service,
                    effects: n.effects,
                    ..o
                })
                &&& n.chat.dm_messages@.len() == 0
                &&& n.chat.unread_dm_conversations@ == c.unread_dm_conversations@.remove(uid)
                &&& preloaded(o.chat_service, n.chat_service, n.chat)
                &&& queued(o, n, seq![
                    Effect::Send(ClientMessage::GetDirectMessages { user_id: uid, before: None }),
                    Effect::Play(SoundType::ChangeChannel),
                ])
            } else {
                n == o
            },
            None => n == o,
        },
    }
}

fn select_current_sidebar_target(app: &mut App)
    ensures
        sidebar_target_selected(*old(app), *final(app)),
{
    let ghost e0 = app.effects@;
    match app.chat.sidebar_tab {
        SidebarTab::Servers => {
            match (app.chat.selected_server, app.chat.selected_channel) {
                (Some(s), Some(k)) => {
                    if s < app.chat.servers.len() && k < app.chat.servers[s].channels.len() {
                        let channel_id = app.chat.servers[s].channels[k].id;
                        let server_id = app.chat.servers[s].channels[k].server_id;
                        app.chat.chat_messages = Vec::new();
                        app.set_current_chat_target(ChatTarget::Channel { server_id, channel_id });
                        let ghost mid = app.chat;
                        let ghost service = app.chat_service;
                        app.chat.reset_scroll_offset();
                        app.send_to_server(ClientMessage::GetChannelMessages { channel_id, before: None });
                        app.send_to_server(ClientMessage::GetChannelUserList { channel_id });
                        app.play(SoundType::ChangeChannel);
                        proof {
                            lemma_preloaded_same_people(old(app).chat_service, service, mid, app.chat);
                        }
                        assert(app.effects@ =~= e0 + seq![
                            Effect::Send(ClientMessage::GetChannelMessages { channel_id, before: None }),
                            Effect::Send(ClientMessage::GetChannelUserList { channel_id }),
                            Effect::Play(SoundType::ChangeChannel),
                        ]);
                    }
                },
                _ => {},
            }
        },
        SidebarTab::DMs => {
            match app.chat.selected_dm_user {
                Some(i) => {
                    if i < app.chat.dm_user_list.len() {
                        let user_id = app.chat.dm_user_list[i].id;
                        app.chat.dm_messages = Vec::new();
                        app.set_current_chat_target(ChatTarget::DM { user_id });
                        let ghost mid = app.chat;
                        let ghost service = app.chat_service;
                        app.chat.reset_scroll_offset();
                        app.send_to_server(ClientMessage::GetDirectMessages { user_id, before: None });
                        app.chat.unread_dm_conversations.remove(&user_id);
                        app.play(SoundType::ChangeChannel);
                        proof {
                            lemma_preloaded_same_people(old(app).chat_service, service, mid, app.chat);
                        }
                        assert(app.effects@ =~= e0 + seq![
                            Effect::Send(ClientMessage::GetDirectMessages { user_id, before: None }),
                            Effect::Play(SoundType::ChangeChannel),
                        ]);
                    }
                },
                None => {},
            }
        },
    }
}


// ---------------------------------------------------------------------
// Popups
// ---------------------------------------------------------------------

/// What the chosen user action does: view the user's profile, start a
/// direct message, or pick a server to invite them to; the popup closes.
pub open spec fn user_action_done(o: App, n: App) -> bool {
    let p = ProfileState { show_user_actions: false, ..o.profile };
    match o.profile.user_actions_target {
        Some(idx) => if idx < o.chat.channel_userlist@.len() && o.profile.user_actions_selected <= 2 {
            let u = o.chat.channel_userlist@[idx as int];
            if o.profile.user_actions_selected == 0 {
                n == (App { profile: ProfileState { profile_requested_by_user: true, ..p }, effects: n.effects, ..o })
                    && queued(o, n, seq![Effect::Play(SoundType::PopupOpen), Effect::Send(ClientMessage::GetProfile { user_id: u.id })])
            } else if o.profile.user_actions_selected == 1 {
                &&& n == (App {
                    profile: p,
                    chat: ChatState { dm_target: Some(u.id), dm_input: n.chat.dm_input, chat_focus: ChatFocus::DMInput, ..o.chat },
                    effects: n.effects,
                    ..o
                })
                &&& n.chat.dm_input@.len() == 0
                &&& queued(o, n, seq![Effect::Play(SoundType::PopupOpen)])
            } else {
                n == (App {
                    profile: p,
                    ui: UiState {
                        show_server_invite_selection: true,
                        server_invite_selected: 0,
                        server_invite_target_user: Some(u.id),
                        ..o.ui
                    },
                    effects: n.effects,
                    ..o
                }) && queued(o, n, seq![Effect::Play(SoundType::PopupOpen)])
            }
        } else {
            n == (App { profile: p, effects: n.effects, ..o }) && queued(o, n, seq![Effect::Play(SoundType::PopupOpen)])
        },
        None => n == (App { profile: p, ..o }),
    }
}

fn handle_user_action(app: &mut App)
    ensures
        user_action_done(*old(app), *final(app)),
{
    match app.profile.user_actions_target {
        Some(idx) => {
            app.play(SoundType::PopupOpen);
            if idx < app.chat.channel_userlist.len() {
                let id = app.chat.channel_userlist[idx].id;
                let choice = app.profile.user_actions_selected;
                if choice == 0 {
                    app.profile.profile_requested_by_user = true;
                    let ghost e0 = app.effects@;
                    app.send_to_server(ClientMessage::GetProfile { user_id: id });
                } else if choice == 1 {
                    app.chat.dm_target = Some(id);
                    app.chat.dm_input = String::new();
                    app.chat.chat_focus = ChatFocus::DMInput;
                } else if choice == 2 {
                    app.ui.show_server_invite_selection = true;
                    app.ui.server_invite_selected = 0;
                    app.ui.server_invite_target_user = Some(id);
                }
            }
            assert(app.effects@.len() >= old(app).effects@.len() + 1);
        },
        None => {},
    }
    app.profile.show_user_actions = false;
    proof {
        if old(app).profile.user_actions_target is Some && old(app).profile.user_actions_selected == 0
            && old(app).profile.user_actions_target->0 < old(app).chat.channel_userlist@.len() {
            assert(app.effects@ =~= old(app).effects@ + seq![
                Effect::Play(SoundType::PopupOpen),
                Effect::Send(ClientMessage::GetProfile {
                    user_id: old(app).chat.channel_userlist@[old(app).profile.user_actions_target->0 as int].id,
                }),
            ]);
        }
    }
}

/// The name used for the invited user: their name in the channel's list,
/// or `User`.
pub open spec fn invitee_name(c: ChatState, id: u128) -> Seq<char> {
    match crate::services::chat::find_user(c.channel_userlist@, id) {
        Some(u) => u.username@,
        None => "User"@,
    }
}

/// A key of the popups over the chat: any key closes the profile popup;
/// the user-actions popup is navigated and chosen from; the server popup of
/// an invitation is navigated, sends the invitation, or is closed. `true`
/// when a popup took the key.
pub open spec fn chat_popup_key(o: App, n: App, key: KeyEvent, handled: bool) -> bool {
    if o.profile.show_profile_view_popup {
        handled && n == (App { profile: ProfileState { profile_view: None, show_profile_view_popup: false, ..o.profile }, ..o })
    } else if o.profile.show_user_actions {
        let s = o.profile.user_actions_selected;
        &&& handled
        &&& match key.code {
            KeyCode::Up => n == (App {
                profile: ProfileState { user_actions_selected: if s > 0 { (s - 1) as usize } else { s }, ..o.profile },
                effects: n.effects,
                ..o
            }) && queued(o, n, seq![Effect::Play(SoundType::Scroll)]),
            KeyCode::Down => n == (App {
                profile: ProfileState { user_actions_selected: if s < 2 { (s + 1) as usize } else { s }, ..o.profile },
                effects: n.effects,
                ..o
            }) && queued(o, n, seq![Effect::Play(SoundType::Scroll)]),
            KeyCode::Enter => user_action_done(o, n),
            KeyCode::Esc => n == (App { profile: ProfileState { show_user_actions: false, ..o.profile }, ..o }),
            _ => n == o,
        }
    } else if o.ui.show_server_invite_selection {
        let s = o.ui.server_invite_selected;
        let closed = UiState { show_server_invite_selection: false, server_invite_target_user: None, server_invite_selected: 0, ..o.ui };
        &&& handled
        &&& match key.code {
            KeyCode::Up => n == (App { ui: UiState { server_invite_selected: if s > 0 { (s - 1) as usize } else { s }, ..o.ui }, ..o }),
            KeyCode::Down => n == (App {
                ui: UiState { server_invite_selected: if s + 1 < o.chat.servers@.len() { (s + 1) as usize } else { s }, ..o.ui },
                ..o
            }),
            KeyCode::Enter => match o.ui.server_invite_target_user {
                Some(uid) => if s < o.chat.servers@.len() {
                    &&& n == (App { ui: closed, notifications: n.notifications, effects: n.effects, ..o })
                    &&& shows(o.notifications, n.notifications, "Sent server invite to "@ + invitee_name(o.chat, uid) + "!"@,
                        Some(2000), false, o.ui.tick_count)
                    &&& queued(o, n, seq![Effect::Send(ClientMessage::SendServerInvite {
                        to_user_id: uid,
                        server_id: o.chat.servers@[s as int].id,
                    })])
                } else {
                    n == (App { ui: closed, ..o })
                },
                None => n == (App { ui: closed, ..o }),
            },
            KeyCode::Esc => n == (App { ui: closed, ..o }),
            _ => n == o,
        }
    } else {
        !handled && n == o
    }
}

fn handle_chat_popups(key: KeyEvent, app: &mut App) -> (handled: bool)
    ensures
        chat_popup_key(*old(app), *final(app), key, handled),
{
    if app.profile.show_profile_view_popup {
        app.profile.close_profile_view();
        return true;
    }
    if app.profile.show_user_actions {
        match key.code {
            KeyCode::Up => {
                app.play(SoundType::Scroll);
                if app.profile.user_actions_selected > 0 {
                    app.profile.user_actions_selected = app.profile.user_actions_selected - 1;
                }
            },
            KeyCode::Down => {
                app.play(SoundType::Scroll);
                if app.profile.user_actions_selected < 2 {
                    app.profile.user_actions_selected = app.profile.user_actions_selected + 1;
                }
            },
            KeyCode::Enter => handle_user_action(app),
            KeyCode::Esc => app.profile.show_user_actions = false,
            _ => {},
        }
        return true;
    }
    if app.ui.show_server_invite_selection {
        match key.code {
            KeyCode::Up => {
                if app.ui.server_invite_selected > 0 {
                    app.ui.server_invite_selected = app.ui.server_invite_selected - 1;
                }
            },
            KeyCode::Down => {
                if app.ui.server_invite_selected < app.chat.servers.len().saturating_sub(1) {
                    app.ui.server_invite_selected = app.ui.server_invite_selected + 1;
                }
            },
            KeyCode::Enter => {
                match app.ui.server_invite_target_user {
                    Some(uid) => {
                        if app.ui.server_invite_selected < app.chat.servers.len() {
                            let server_id = app.chat.servers[app.ui.server_invite_selected].id;
                            app.send_to_server(ClientMessage::SendServerInvite { to_user_id: uid, server_id });
                            let name = match crate::services::chat::find_user_in(&app.chat.channel_userlist, uid) {
                                Some(u) => u.username.clone(),
                                None => "User".to_string(),
                            };
                            let t1 = crate::text::concat_str("Sent server invite to ", name.as_str());
                            app.set_notification(crate::text::concat_str(t1.as_str(), "!"), Some(2000), false);
                        }
                    },
                    None => {},
                }
                app.ui.show_server_invite_selection = false;
                app.ui.server_invite_target_user = None;
                app.ui.server_invite_selected = 0;
            },
            KeyCode::Esc => {
                app.ui.show_server_invite_selection = false;
                app.ui.server_invite_target_user = None;
                app.ui.server_invite_selected = 0;
            },
            _ => {},
        }
        return true;
    }
    false
}


// ---------------------------------------------------------------------
// The panes
// ---------------------------------------------------------------------

/// `n` is `o` with the chat state `c`.
pub open spec fn chat_is(o: App, n: App, c: ChatState) -> bool {
    n == (App { chat: c, ..o })
}

/// A key of the sidebar: tab and back-tab move the focus; control-`u`
/// shows or hides the user list; left and right switch between servers and
/// conversations and open the first one; up and down move the selection and
/// open it; enter focuses the messages; escape goes back to the main menu.
pub open spec fn sidebar_key(o: App, n: App, key: KeyEvent) -> bool {
    let c = o.chat;
    match key.code {
        KeyCode::Tab => chat_is(o, n, ChatState { chat_focus: ChatFocus::Messages, ..c }),
        KeyCode::BackTab => chat_is(o, n, ChatState {
            chat_focus: if c.show_user_list { ChatFocus::Users } else { ChatFocus::Messages },
            ..c
        }),
        KeyCode::Char('u') => if key.modifiers.is_control_only() {
            chat_is(o, n, ChatState { show_user_list: !c.show_user_list, ..c })
        } else {
            n == o
        },
        KeyCode::Left | KeyCode::Right => {
            let mid = App {
                chat: ChatState { sidebar_tab: if c.sidebar_tab == SidebarTab::Servers { SidebarTab::DMs } else { SidebarTab::Servers }, ..c },
                ..o
            };
            exists|m: App| #[trigger] loaded_first_chat(m, n) && m == (App { effects: m.effects, ..mid })
                && m.effects@ == o.effects@.push(Effect::Play(SoundType::ChangeChannel))
        },
        KeyCode::Down | KeyCode::Up => {
            let down = key.code == KeyCode::Down;
            let moved = if c.sidebar_tab == SidebarTab::Servers {
                match server_moved(c, down) {
                    Some((sv, k)) => ChatState { selected_server: sv, selected_channel: Some(k), ..c },
                    None => c,
                }
            } else {
                match dm_moved(c, down) {
                    Some(i) => ChatState { selected_dm_user: Some(i), ..c },
                    None => c,
                }
            };
            sidebar_target_selected(App { chat: moved, ..o }, n)
        },
        KeyCode::Enter => chat_is(o, n, ChatState { chat_focus: ChatFocus::Messages, ..c }),
        KeyCode::Esc => n == (App { ui: UiState { mode: AppMode::MainMenu, ..o.ui }, ..o }),
        _ => n == o,
    }
}

fn handle_sidebar_input(key: KeyEvent, app: &mut App)
    ensures
        sidebar_key(*old(app), *final(app), key),
{
    match key.code {
        KeyCode::Tab => app.chat.chat_focus = ChatFocus::Messages,
        KeyCode::BackTab => {
            app.chat.chat_focus = if app.chat.show_user_list { ChatFocus::Users } else { ChatFocus::Messages };
        },
        KeyCode::Char('u') => {
            if key.control_only() {
                app.chat.show_user_list = !app.chat.show_user_list;
            }
        },
        KeyCode::Left | KeyCode::Right => {
            app.chat.sidebar_tab = match app.chat.sidebar_tab {
                SidebarTab::Servers => SidebarTab::DMs,
                SidebarTab::DMs => SidebarTab::Servers,
            };
            app.play(SoundType::ChangeChannel);
            let ghost m = *app;
            assert(m.effects@ =~= old(app).effects@.push(Effect::Play(SoundType::ChangeChannel)));
            app.select_and_load_first_chat();
            assert(loaded_first_chat(m, *app));
        },
        KeyCode::Down | KeyCode::Up => {
            let down = key.code == KeyCode::Down;
            match app.chat.sidebar_tab {
                SidebarTab::Servers => move_server_selection(app, down),
                SidebarTab::DMs => move_dm_selection(app, down),
            }
            select_current_sidebar_target(app);
        },
        KeyCode::Enter => app.chat.chat_focus = ChatFocus::Messages,
        KeyCode::Esc => app.ui.set_mode(AppMode::MainMenu),
        _ => {},
    }
}

/// What sending the draft with enter does: see `App::send_message`; a
/// refused draft is reported.
pub open spec fn message_sent(o: App, n: App) -> bool {
    let input = current_draft(o.chat);
    if message_is_valid(input) {
        sent_message(o, n)
    } else {
        n == (App { notifications: n.notifications, ..o })
            && shows(o.notifications, n.notifications, "Failed to send message: "@ + ("Validation error: "@ + (if trim(input).len() == 0 {
                "Message cannot be empty"@
            } else {
                "Message too long (max 2000 characters)"@
            })), Some(2000), false, o.ui.tick_count)
    }
}

/// The draft is set to `text` and the mention and emoji suggestions are
/// recomputed for it.
pub open spec fn draft_typed(o: App, n: App, text: Seq<char>) -> bool {
    exists|m1: App, m2: App| #![trigger mentions_updated(m1, m2), emojis_updated(m2, n)]
        m1 == (App { chat: m1.chat, ..o }) && draft_set(o.chat, m1.chat, text)
        && mentions_updated(m1, m2) && emojis_updated(m2, n)
}

/// A key of the messages pane: tab and back-tab move the focus; page up
/// and down scroll by a screen (fetching older messages when needed); the
/// arrows move over the mention or emoji suggestions when there are some,
/// else up and down scroll by a row; enter applies the selected suggestion
/// or sends the draft; control-`u` shows or hides the user list; characters
/// and backspace edit the draft and recompute the suggestions; escape goes
/// back to the main menu.
pub open spec fn message_key(o: App, n: App, key: KeyEvent) -> bool {
    let c = o.chat;
    let ml = c.mention_suggestions@.len() as int;
    let el = c.emoji_suggestions@.len() as int;
    match key.code {
        KeyCode::Tab => chat_is(o, n, ChatState { chat_focus: if c.show_user_list { ChatFocus::Users } else { ChatFocus::Sidebar }, ..c }),
        KeyCode::BackTab => chat_is(o, n, ChatState { chat_focus: ChatFocus::Sidebar, ..c }),
        KeyCode::PageUp => exists|m: App| #[trigger] scrolled_up(m, n)
            && m == (App { effects: m.effects, ..o }) && m.effects@ == o.effects@.push(Effect::Play(SoundType::Scroll)),
        KeyCode::PageDown => exists|m: App| #[trigger] scrolled_down(m, n)
            && m == (App { effects: m.effects, ..o }) && m.effects@ == o.effects@.push(Effect::Play(SoundType::Scroll)),
        KeyCode::Down => if ml > 0 {
            chat_is(o, n, ChatState { mention_selected: ((c.mention_selected + 1) % ml) as usize, ..c })
        } else if el > 0 {
            chat_is(o, n, ChatState { emoji_selected: emoji_down(c.emoji_selected as int, el) as usize, ..c })
        } else if c.chat_scroll_offset > 0 {
            chat_is(o, n, ChatState { chat_scroll_offset: (c.chat_scroll_offset - 1) as usize, ..c })
        } else {
            n == o
        },
        KeyCode::Up => if ml > 0 {
            chat_is(o, n, ChatState { mention_selected: (if c.mention_selected == 0 { ml - 1 } else { c.mention_selected - 1 }) as usize, ..c })
        } else if el > 0 {
            chat_is(o, n, ChatState { emoji_selected: emoji_up(c.emoji_selected as int, el) as usize, ..c })
        } else if c.chat_scroll_offset < max_scroll(c) {
            scrolled_and_fetched(o, n, c.chat_scroll_offset + 1)
        } else {
            n == o
        },
        KeyCode::Left => if el > 0 {
            chat_is(o, n, ChatState { emoji_selected: emoji_left(c.emoji_selected as int, el) as usize, ..c })
        } else {
            n == o
        },
        KeyCode::Right => if el > 0 {
            chat_is(o, n, ChatState { emoji_selected: emoji_right(c.emoji_selected as int, el) as usize, ..c })
        } else {
            n == o
        },
        KeyCode::Enter => if ml > 0 {
            mention_applied(o, n)
        } else if el > 0 {
            emoji_applied(o, n)
        } else {
            message_sent(o, n)
        },
        KeyCode::Char(ch) => if ch == 'u' && key.modifiers.is_control_only() {
            chat_is(o, n, ChatState { show_user_list: !c.show_user_list, ..c })
        } else if key.modifiers.control {
            n == o
        } else {
            draft_typed(o, n, current_draft(c).push(ch))
        },
        KeyCode::Backspace => draft_typed(o, n, if current_draft(c).len() > 0 { current_draft(c).drop_last() } else { current_draft(c) }),
        KeyCode::Esc => n == (App { ui: UiState { mode: AppMode::MainMenu, ..o.ui }, ..o }),
        _ => n == o,
    }
}

fn retype_draft(app: &mut App, text: String)
    ensures
        draft_typed(*old(app), *final(app), text@),
{
    app.set_current_input(text);
    let ghost m1 = *app;
    app.update_mention_suggestions();
    let ghost m2 = *app;
    app.update_emoji_suggestions();
    assert(mentions_updated(m1, m2) && emojis_updated(m2, *app));
}

/// Handles a key of the message input (see `message_key`).
#[verifier::rlimit(80)]
pub fn handle_message_input(key: KeyEvent, app: &mut App)
    requires
        rows_ok(old(app).chat),
    ensures
        message_key(*old(app), *final(app), key),
{
    let ml = app.chat.mention_suggestions.len();
    let el = app.chat.emoji_suggestions.len();
    match key.code {
        KeyCode::Tab => {
            app.chat.chat_focus = if app.chat.show_user_list { ChatFocus::Users } else { ChatFocus::Sidebar };
        },
        KeyCode::BackTab => app.chat.chat_focus = ChatFocus::Sidebar,
        KeyCode::PageUp => {
            app.play(SoundType::Scroll);
            let ghost m = *app;
            assert(m.effects@ =~= old(app).effects@.push(Effect::Play(SoundType::Scroll)));
            handle_scroll_up(app);
            assert(scrolled_up(m, *app));
        },
        KeyCode::PageDown => {
            app.play(SoundType::Scroll);
            let ghost m = *app;
            assert(m.effects@ =~= old(app).effects@.push(Effect::Play(SoundType::Scroll)));
            handle_scroll_down(app);
            assert(scrolled_down(m, *app));
        },
        KeyCode::Down => {
            if ml > 0 {
                app.chat.mention_selected = next_index(app.chat.mention_selected, ml);
            } else if el > 0 {
                app.chat.emoji_selected = emoji_down_of(app.chat.emoji_selected, el);
            } else if app.chat.chat_scroll_offset > 0 {
                app.chat.chat_scroll_offset = app.chat.chat_scroll_offset - 1;
            }
        },
        KeyCode::Up => {
            if ml > 0 {
                if app.chat.mention_selected == 0 {
                    app.chat.mention_selected = ml - 1;
                } else {
                    app.chat.mention_selected = app.chat.mention_selected - 1;
                }
            } else if el > 0 {
                app.chat.emoji_selected = emoji_up_of(app.chat.emoji_selected, el);
            } else {
                let rows = rows_of(&app.chat);
                let total = shown_count_of(app);
                let max = total.saturating_sub(rows);
                if app.chat.chat_scroll_offset < max {
                    app.chat.chat_scroll_offset = app.chat.chat_scroll_offset + 1;
                    fetch_older(app);
                }
            }
        },
        KeyCode::Left => {
            if el > 0 {
                app.chat.emoji_selected = emoji_left_of(app.chat.emoji_selected, el);
            }
        },
        KeyCode::Right => {
            if el > 0 {
                app.chat.emoji_selected = emoji_right_of(app.chat.emoji_selected, el);
            }
        },
        KeyCode::Enter => {
            if ml > 0 {
                app.apply_selected_mention();
            } else if el > 0 {
                app.apply_selected_emoji();
            } else {
                match app.send_message() {
                    Ok(()) => {},
                    Err(e) => {
                        let t = e.to_text();
                        app.set_notification(crate::text::concat_str("Failed to send message: ", t.as_str()), Some(2000), false);
                    },
                }
            }
        },
        KeyCode::Char(ch) => {
            if ch == 'u' && key.control_only() {
                app.chat.show_user_list = !app.chat.show_user_list;
            } else if key.modifiers.control {
            } else {
                let mut current = app.get_current_input().to_string();
                push_char(&mut current, ch);
                retype_draft(app, current);
            }
        },
        KeyCode::Backspace => {
            let mut current = app.get_current_input().to_string();
            pop_char(&mut current);
            retype_draft(app, current);
        },
        KeyCode::Esc => app.ui.set_mode(AppMode::MainMenu),
        _ => {},
    }
}

/// A key of the user list: tab and back-tab move the focus; control-`u`
/// hides the list (or shows it) and moves the focus; up and down move over
/// the users; enter opens the actions of the selected user; escape goes
/// back to the main menu.
pub open spec fn user_list_key(o: App, n: App, key: KeyEvent) -> bool {
    let c = o.chat;
    let len = c.channel_userlist@.len() as int;
    match key.code {
        KeyCode::Tab => chat_is(o, n, ChatState { chat_focus: ChatFocus::Sidebar, ..c }),
        KeyCode::BackTab => chat_is(o, n, ChatState { chat_focus: ChatFocus::Messages, ..c }),
        KeyCode::Char('u') => if key.modifiers.is_control_only() {
            chat_is(o, n, ChatState {
                show_user_list: !c.show_user_list,
                chat_focus: if !c.show_user_list { ChatFocus::Users } else { ChatFocus::Messages },
                ..c
            })
        } else {
            n == o
        },
        KeyCode::Down | KeyCode::Up => if len == 0 {
            n == o
        } else {
            let s = sel(c.user_list_state);
            let k = if key.code == KeyCode::Down { (s + 1) % len } else { (s + len - 1) % len };
            n == (App { chat: ChatState { user_list_state: ListSelection { selected: Some(k as usize) }, ..c }, effects: n.effects, ..o })
                && queued(o, n, seq![Effect::Play(SoundType::Scroll)])
        },
        KeyCode::Enter => match c.user_list_state.selected {
            Some(idx) => n == (App {
                profile: ProfileState { show_user_actions: true, user_actions_selected: 0, user_actions_target: Some(idx), ..o.profile },
                effects: n.effects,
                ..o
            }) && queued(o, n, seq![Effect::Play(SoundType::PopupOpen)]),
            None => n == o,
        },
        KeyCode::Esc => n == (App { ui: UiState { mode: AppMode::MainMenu, ..o.ui }, ..o }),
        _ => n == o,
    }
}

fn user_list_move(app: &mut App, down: bool)
    ensures
        ({
            let o = *old(app);
            let n = *final(app);
            let c = o.chat;
            let len = c.channel_userlist@.len() as int;
            if len == 0 {
                n == o
            } else {
                let s = sel(c.user_list_state);
                let k = if down { (s + 1) % len } else { (s + len - 1) % len };
                n == (App { chat: ChatState { user_list_state: ListSelection { selected: Some(k as usize) }, ..c }, effects: n.effects, ..o })
                    && queued(o, n, seq![Effect::Play(SoundType::Scroll)])
            }
        }),
{
    let len = app.chat.channel_userlist.len();
    if len > 0 {
        app.play(SoundType::Scroll);
        let s = match app.chat.user_list_state.selected() { Some(s) => s, None => 0 };
        let k = if down { next_index(s, len) } else { prev_index(s, len) };
        app.chat.user_list_state.select(Some(k));
    }
}

fn user_list_open(app: &mut App)
    ensures
        ({
            let o = *old(app);
            let n = *final(app);
            match o.chat.user_list_state.selected {
                Some(idx) => n == (App {
                    profile: ProfileState { show_user_actions: true, user_actions_selected: 0, user_actions_target: Some(idx), ..o.profile },
                    effects: n.effects,
                    ..o
                }) && queued(o, n, seq![Effect::Play(SoundType::PopupOpen)]),
                None => n == o,
            }
        }),
{
    match app.chat.user_list_state.selected() {
        Some(idx) => {
            app.play(SoundType::PopupOpen);
            app.profile.show_user_actions = true;
            app.profile.user_actions_selected = 0;
            app.profile.user_actions_target = Some(idx);
        },
        None => {},
    }
}

fn handle_user_list_input(key: KeyEvent, app: &mut App)
    ensures
        user_list_key(*old(app), *final(app), key),
{
    match key.code {
        KeyCode::Tab => app.chat.chat_focus = ChatFocus::Sidebar,
        KeyCode::BackTab => app.chat.chat_focus = ChatFocus::Messages,
        KeyCode::Char('u') => {
            if key.control_only() {
                app.chat.show_user_list = !app.chat.show_user_list;
                app.chat.chat_focus = if app.chat.show_user_list { ChatFocus::Users } else { ChatFocus::Messages };
            }
        },
        KeyCode::Down => user_list_move(app, true),
        KeyCode::Up => user_list_move(app, false),
        KeyCode::Enter => user_list_open(app),
        KeyCode::Esc => app.ui.set_mode(AppMode::MainMenu),
        _ => {},
    }
}

/// A key of the direct-message input: enter sends the text (when it is not
/// blank and there is a recipient), empties it and focuses the user list;
/// characters and backspace edit it; escape empties it and focuses the user
/// list.
pub open spec fn dm_input_key(o: App, n: App, key: KeyEvent) -> bool {
    let c = o.chat;
    match key.code {
        KeyCode::Enter => {
            &&& n == (App { chat: ChatState { dm_input: n.chat.dm_input, chat_focus: ChatFocus::Users, ..c }, effects: n.effects, ..o })
            &&& n.chat.dm_input@.len() == 0
            &&& match c.dm_target {
                Some(t) => if trim(c.dm_input@).len() > 0 {
                    &&& n.effects@.len() == o.effects@.len() + 2
                    &&& n.effects@.take(o.effects@.len() as int) == o.effects@
                    &&& n.effects@[o.effects@.len() as int] matches Effect::Send(ClientMessage::SendDirectMessage { to, content })
                        && to == t && content@ == c.dm_input@
                    &&& n.effects@.last() == Effect::Play(SoundType::MessageSent)
                } else {
                    n.effects == o.effects
                },
                None => n.effects == o.effects,
            }
        },
        KeyCode::Char(ch) => n == (App { chat: ChatState { dm_input: n.chat.dm_input, ..c }, ..o }) && n.chat.dm_input@ == c.dm_input@.push(ch),
        KeyCode::Backspace => n == (App { chat: ChatState { dm_input: n.chat.dm_input, ..c }, ..o })
            && n.chat.dm_input@ == if c.dm_input@.len() > 0 { c.dm_input@.drop_last() } else { c.dm_input@ },
        KeyCode::Esc => n == (App { chat: ChatState { dm_input: n.chat.dm_input, chat_focus: ChatFocus::Users, ..c }, ..o })
            && n.chat.dm_input@.len() == 0,
        _ => n == o,
    }
}

fn handle_dm_input(key: KeyEvent, app: &mut App)
    ensures
        dm_input_key(*old(app), *final(app), key),
{
    match key.code {
        KeyCode::Enter => {
            match app.chat.dm_target {
                Some(target) => {
                    let msg = app.chat.dm_input.clone();
                    if trim_chars(&chars_of(msg.as_str())).len() > 0 {
                        let ghost e0 = app.effects@;
                        app.send_to_server(ClientMessage::SendDirectMessage { to: target, content: msg });
                        app.play(SoundType::MessageSent);
                        assert(app.effects@.take(e0.len() as int) =~= e0);
                    }
                },
                None => {},
            }
            app.chat.dm_input = String::new();
            app.chat.chat_focus = ChatFocus::Users;
        },
        KeyCode::Char(ch) => push_char(&mut app.chat.dm_input, ch),
        KeyCode::Backspace => pop_char(&mut app.chat.dm_input),
        KeyCode::Esc => {
            app.chat.dm_input = String::new();
            app.chat.chat_focus = ChatFocus::Users;
        },
        _ => {},
    }
}

/// A popup is shown over the chat.
pub open spec fn chat_popup_shown(o: App) -> bool {
    o.profile.show_profile_view_popup || o.profile.show_user_actions || o.ui.show_server_invite_selection
}

/// A key of the chat screen: a popup takes it first; otherwise the focused
/// pane does.
pub open spec fn chat_key(o: App, n: App, key: KeyEvent) -> bool {
    if chat_popup_shown(o) {
        chat_popup_key(o, n, key, true)
    } else {
        match o.chat.chat_focus {
            ChatFocus::Sidebar => sidebar_key(o, n, key),
            ChatFocus::Messages => message_key(o, n, key),
            ChatFocus::Users => user_list_key(o, n, key),
            ChatFocus::DMInput => dm_input_key(o, n, key),
        }
    }
}

/// Handles a key of the chat screen (see `chat_key`).
pub fn handle_chat_input(key: KeyEvent, app: &mut App)
    requires
        rows_ok(old(app).chat),
    ensures
        chat_key(*old(app), *final(app), key),
{
    if handle_chat_popups(key, app) {
        return;
    }
    match app.chat.chat_focus {
        ChatFocus::Sidebar => handle_sidebar_input(key, app),
        ChatFocus::Messages => handle_message_input(key, app),
        ChatFocus::Users => handle_user_list_input(key, app),
        ChatFocus::DMInput => handle_dm_input(key, app),
    }
}

} // verus!
