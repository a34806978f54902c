//! Chat state: servers, channels, direct messages, drafts and suggestions.

use std::collections::{HashMap, HashSet};
use vstd::prelude::*;
use crate::model::{ChannelMessage, DirectMessage, Server, User};
use crate::state::ListSelection;

verus! {

/// Which pane of the chat screen has the focus.
#[derive(Debug, Clone, Copy, PartialEq, Eq, Structural)]
pub enum ChatFocus {
    Messages,
    Users,
    DMInput,
    Sidebar,
}

/// Which list the sidebar shows.
#[derive(Debug, Clone, Copy, PartialEq, Eq, Structural)]
pub enum SidebarTab {
    Servers,
    DMs,
}

/// The conversation shown: a channel of a server, or a direct conversation.
#[derive(Debug, Clone, Copy, PartialEq, Eq, Structural)]
pub enum ChatTarget {
    Channel { server_id: u128, channel_id: u128 },
    DM { user_id: u128 },
}

/// The draft kept for a conversation: that of the first entry for it, or
/// empty text.
pub open spec fn draft_of(drafts: Seq<(ChatTarget, String)>, t: ChatTarget) -> Seq<char>
    decreases drafts.len(),
{
    if drafts.len() == 0 {
        Seq::empty()
    } else if drafts[0].0 == t {
        drafts[0].1@
    } else {
        draft_of(drafts.drop_first(), t)
    }
}

/// The draft of the conversation shown, empty text when none is shown.
pub open spec fn current_draft(s: ChatState) -> Seq<char> {
    match s.current_chat_target {
        Some(t) => draft_of(s.chat_input_drafts@, t),
        None => Seq::<char>::empty(),
    }
}

/// State management for chat functionality.
#[derive(Debug)]
pub struct ChatState {
    pub servers: Vec<Server>,
    pub selected_server: Option<usize>,
    pub selected_channel: Option<usize>,
    pub chat_messages: Vec<ChannelMessage>,
    pub chat_scroll_offset: usize,
    pub last_chat_rows: Option<usize>,
    pub channel_userlist: Vec<User>,
    pub channel_history_complete: HashMap<u128, bool>,
    pub unread_channels: HashSet<u128>,
    pub dm_user_list: Vec<User>,
    pub selected_dm_user: Option<usize>,
    pub dm_messages: Vec<DirectMessage>,
    pub dm_history_complete: bool,
    pub unread_dm_conversations: HashSet<u128>,
    pub dm_input: String,
    pub dm_target: Option<u128>,
    pub chat_focus: ChatFocus,
    pub sidebar_tab: SidebarTab,
    pub show_user_list: bool,
    pub user_list_state: ListSelection,
    /// The draft typed for each conversation.
    pub chat_input_drafts: Vec<(ChatTarget, String)>,
    pub current_chat_target: Option<ChatTarget>,
    /// Positions in `channel_userlist` of the users that match the mention
    /// being typed.
    pub mention_suggestions: Vec<usize>,
    pub mention_selected: usize,
    pub mention_prefix: Option<String>,
    pub emoji_suggestions: Vec<String>,
    pub emoji_selected: usize,
    pub emoji_prefix: Option<String>,
}

/// The number of messages of the conversation shown.
pub open spec fn shown_message_count(s: ChatState) -> nat {
    match s.current_chat_target {
        Some(ChatTarget::Channel { .. }) => s.chat_messages@.len(),
        Some(ChatTarget::DM { .. }) => s.dm_messages@.len(),
        None => 0,
    }
}

impl ChatState {
    /// The state of a new session (see `new`).
    pub open spec fn is_fresh(&self) -> bool {
        &&& self.servers@.len() == 0
        &&& self.selected_server is None
        &&& self.selected_channel is None
        &&& self.chat_messages@.len() == 0
        &&& self.chat_scroll_offset == 0
        &&& self.last_chat_rows is None
        &&& self.channel_userlist@.len() == 0
        &&& self.channel_history_complete@ == Map::<u128, bool>::empty()
        &&& self.unread_channels@ == Set::<u128>::empty()
        &&& self.dm_user_list@.len() == 0
        &&& self.selected_dm_user is None
        &&& self.dm_messages@.len() == 0
        &&& !self.dm_history_complete
        &&& self.unread_dm_conversations@ == Set::<u128>::empty()
        &&& self.dm_input@ == Seq::<char>::empty()
        &&& self.dm_target is None
        &&& self.chat_focus == ChatFocus::Messages
        &&& self.sidebar_tab == SidebarTab::Servers
        &&& self.show_user_list
        &&& self.user_list_state.selected is None
        &&& self.chat_input_drafts@.len() == 0
        &&& self.current_chat_target is None
        &&& self.mention_suggestions@.len() == 0
        &&& self.mention_selected == 0
        &&& self.mention_prefix is None
        &&& self.emoji_suggestions@.len() == 0
        &&& self.emoji_selected == 0
        &&& self.emoji_prefix is None
    }

    /// No data, the messages pane focused, the server tab shown, the user
    /// list shown.
    pub fn new() -> (r: ChatState)
        ensures
            r.is_fresh(),
    {
        ChatState {
            servers: Vec::new(),
            selected_server: None,
            selected_channel: None,
            chat_messages: Vec::new(),
            chat_scroll_offset: 0,
            last_chat_rows: None,
            channel_userlist: Vec::new(),
            channel_history_complete: HashMap::new(),
            unread_channels: HashSet::new(),
            dm_user_list: Vec::new(),
            selected_dm_user: None,
            dm_messages: Vec::new(),
            dm_history_complete: false,
            unread_dm_conversations: HashSet::new(),
            dm_input: String::new(),
            dm_target: None,
            chat_focus: ChatFocus::Messages,
            sidebar_tab: SidebarTab::Servers,
            show_user_list: true,
            user_list_state: ListSelection::new(),
            chat_input_drafts: Vec::new(),
            current_chat_target: None,
            mention_suggestions: Vec::new(),
            mention_selected: 0,
            mention_prefix: None,
            emoji_suggestions: Vec::new(),
            emoji_selected: 0,
            emoji_prefix: None,
        }
    }

    /// Shows the given conversation.
    pub fn set_current_chat_target(&mut self, target: ChatTarget)
        ensures
            *final(self) == (ChatState { current_chat_target: Some(target), ..*old(self) }),
    {
        self.current_chat_target = Some(target);
    }

    fn draft_index(&self, t: ChatTarget) -> (r: Option<usize>)
        ensures
            r matches Some(i) ==> i < self.chat_input_drafts@.len() && self.chat_input_drafts@[i as int].0 == t
                && draft_of(self.chat_input_drafts@, t) == self.chat_input_drafts@[i as int].1@
                && forall|j: int| 0 <= j < i ==> self.chat_input_drafts@[j].0 != t,
            r is None ==> draft_of(self.chat_input_drafts@, t) == Seq::<char>::empty()
                && forall|j: int| 0 <= j < self.chat_input_drafts@.len() ==> self.chat_input_drafts@[j].0 != t,
    {
        let ghost d = self.chat_input_drafts@;
        let mut i: usize = 0;
        assert(d.skip(0) =~= d);
        while i < self.chat_input_drafts.len()
            invariant
                i <= d.len(),
                d == self.chat_input_drafts@,
                draft_of(d, t) == draft_of(d.skip(i as int), t),
                forall|j: int| 0 <= j < i ==> d[j].0 != t,
            decreases d.len() - i,
        {
            if self.chat_input_drafts[i].0 == t {
                return Some(i);
            }
            assert(d.skip(i as int).drop_first() =~= d.skip(i + 1));
            i = i + 1;
        }
        None
    }

    /// The draft typed for the conversation shown (empty text when there is
    /// none or no conversation is shown).
    pub fn get_current_input(&self) -> (r: &str)
        ensures
            r@ == current_draft(*self),
    {
        proof {
            reveal_strlit("");
        }
        match self.current_chat_target {
            Some(t) => match self.draft_index(t) {
                Some(i) => self.chat_input_drafts[i].1.as_str(),
                None => "",
            },
            None => "",
        }
    }

    proof fn lemma_draft_update(d: Seq<(ChatTarget, String)>, i: int, t: ChatTarget, v: String, u: ChatTarget)
        requires
            0 <= i < d.len(),
            d[i].0 == t,
            forall|j: int| 0 <= j < i ==> d[j].0 != t,
        ensures
            draft_of(d.update(i, (t, v)), u) == if u == t { v@ } else { draft_of(d, u) },
        decreases d.len(),
    {
        let e = d.update(i, (t, v));
        if i > 0 {
            assert(e.drop_first() =~= d.drop_first().update(i - 1, (t, v)));
            assert(e[0] == d[0]);
            Self::lemma_draft_update(d.drop_first(), i - 1, t, v, u);
        } else {
            assert(e.drop_first() =~= d.drop_first());
            assert(e[0] == (t, v));
        }
    }

    proof fn lemma_draft_push(d: Seq<(ChatTarget, String)>, t: ChatTarget, v: String, u: ChatTarget)
        requires
            forall|j: int| 0 <= j < d.len() ==> d[j].0 != t,
        ensures
            draft_of(d.push((t, v)), u) == if u == t { v@ } else { draft_of(d, u) },
        decreases d.len(),
    {
        let e = d.push((t, v));
        if d.len() > 0 {
            assert(e.drop_first() =~= d.drop_first().push((t, v)));
            assert(e[0] == d[0]);
            Self::lemma_draft_push(d.drop_first(), t, v, u);
        } else {
            assert(e.drop_first() =~= Seq::<(ChatTarget, String)>::empty());
            assert(e[0] == (t, v));
            assert(draft_of(e.drop_first(), u) == Seq::<char>::empty());
        }
    }

    /// Stores the draft of the conversation shown; without one, nothing
    /// changes.
    pub fn set_current_input(&mut self, value: String)
        ensures
            old(self).current_chat_target is None ==> *final(self) == *old(self),
            forall|u: ChatTarget| #[trigger] draft_of(final(self).chat_input_drafts@, u) == match old(self).current_chat_target {
                Some(t) => if u == t { value@ } else { draft_of(old(self).chat_input_drafts@, u) },
                None => draft_of(old(self).chat_input_drafts@, u),
            },
            *final(self) == (ChatState { chat_input_drafts: final(self).chat_input_drafts, ..*old(self) }),
    {
        match self.current_chat_target {
            None => {}
            Some(t) => {
                let ghost d = self.chat_input_drafts@;
                let ghost vv = value;
                match self.draft_index(t) {
                    Some(i) => {
                        self.chat_input_drafts.set(i, (t, value));
                        assert forall|u: ChatTarget| #[trigger] draft_of(self.chat_input_drafts@, u)
                            == (if u == t { vv@ } else { draft_of(d, u) }) by {
                            Self::lemma_draft_update(d, i as int, t, vv, u);
                        }
                    }
                    None => {
                        self.chat_input_drafts.push((t, value));
                        assert forall|u: ChatTarget| #[trigger] draft_of(self.chat_input_drafts@, u)
                            == (if u == t { vv@ } else { draft_of(d, u) }) by {
                            Self::lemma_draft_push(d, t, vv, u);
                        }
                    }
                }
            }
        }
    }

    /// Empties the draft of the conversation shown.
    pub fn clear_current_input(&mut self)
        ensures
            old(self).current_chat_target is None ==> *final(self) == *old(self),
            forall|u: ChatTarget| #[trigger] draft_of(final(self).chat_input_drafts@, u) == match old(self).current_chat_target {
                Some(t) => if u == t { Seq::<char>::empty() } else { draft_of(old(self).chat_input_drafts@, u) },
                None => draft_of(old(self).chat_input_drafts@, u),
            },
            *final(self) == (ChatState { chat_input_drafts: final(self).chat_input_drafts, ..*old(self) }),
    {
        self.set_current_input(String::new());
    }

    /// Scrolls back to the newest message.
    pub fn reset_scroll_offset(&mut self)
        ensures
            *final(self) == (ChatState { chat_scroll_offset: 0, ..*old(self) }),
    {
        self.chat_scroll_offset = 0;
    }

    /// Scrolls to `offset`, at most as far as leaves `max_rows` messages of
    /// the conversation shown on screen.
    pub fn update_scroll_offset(&mut self, offset: usize, max_rows: usize)
        ensures
            *final(self) == (ChatState {
                chat_scroll_offset: if shown_message_count(*old(self)) <= max_rows {
                    0
                } else if offset <= shown_message_count(*old(self)) - max_rows {
                    offset
                } else {
                    (shown_message_count(*old(self)) - max_rows) as usize
                },
                ..*old(self)
            }),
    {
        let total = match &self.current_chat_target {
            Some(ChatTarget::Channel { .. }) => self.chat_messages.len(),
            Some(ChatTarget::DM { .. }) => self.dm_messages.len(),
            None => 0,
        };
        let max_scroll = total.saturating_sub(max_rows);
        self.chat_scroll_offset = if offset < max_scroll { offset } else { max_scroll };
    }

    /// Forgets the mention suggestions.
    pub fn clear_mention_suggestions(&mut self)
        ensures
            final(self).mention_suggestions@.len() == 0,
            *final(self) == (ChatState {
                mention_suggestions: final(self).mention_suggestions,
                mention_prefix: None,
                mention_selected: 0,
                ..*old(self)
            }),
    {
        self.mention_suggestions = Vec::new();
        self.mention_prefix = None;
        self.mention_selected = 0;
    }

    /// Forgets the emoji suggestions.
    pub fn clear_emoji_suggestions(&mut self)
        ensures
            final(self).emoji_suggestions@.len() == 0,
            *final(self) == (ChatState {
                emoji_suggestions: final(self).emoji_suggestions,
                emoji_prefix: None,
                emoji_selected: 0,
                ..*old(self)
            }),
    {
        self.emoji_suggestions = Vec::new();
        self.emoji_prefix = None;
        self.emoji_selected = 0;
    }
}

impl Default for ChatState {
    fn default() -> (r: ChatState)
        ensures
            r.current_chat_target is None,
            r.chat_focus == ChatFocus::Messages,
            r.sidebar_tab == SidebarTab::Servers,
    {
        ChatState::new()
    }
}

} // verus!
