//! Forum state: the forums, the forum and thread shown, and the navigation
//! among the posts of a thread.

use vstd::prelude::*;
use crate::model::{Forum, Post, Thread};
use crate::state::ListSelection;

verus! {

/// The first forum with the given id.
pub open spec fn find_forum(s: Seq<Forum>, id: u128) -> Option<int>
    decreases s.len(),
{
    if s.len() == 0 {
        None
    } else if s[0].id == id {
        Some(0)
    } else {
        match find_forum(s.drop_first(), id) {
            Some(i) => Some(i + 1),
            None => None,
        }
    }
}

/// The first thread with the given id.
pub open spec fn find_thread(s: Seq<Thread>, id: u128) -> Option<int>
    decreases s.len(),
{
    if s.len() == 0 {
        None
    } else if s[0].id == id {
        Some(0)
    } else {
        match find_thread(s.drop_first(), id) {
            Some(i) => Some(i + 1),
            None => None,
        }
    }
}

/// The first post with the given id.
pub open spec fn find_post(s: Seq<Post>, id: u128) -> Option<int>
    decreases s.len(),
{
    if s.len() == 0 {
        None
    } else if s[0].id == id {
        Some(0)
    } else {
        match find_post(s.drop_first(), id) {
            Some(i) => Some(i + 1),
            None => None,
        }
    }
}

/// The positions of the posts that answer the post `id`, in order.
pub open spec fn reply_positions(posts: Seq<Post>, id: u128) -> Seq<int>
    decreases posts.len(),
{
    if posts.len() == 0 {
        seq![]
    } else if posts.last().reply_to == Some(id) {
        reply_positions(posts.drop_last(), id).push(posts.len() - 1)
    } else {
        reply_positions(posts.drop_last(), id)
    }
}

/// The number of posts assumed to fit on screen.
pub const VISIBLE_POSTS: usize = 5;

/// State management for forum functionality.
#[derive(Debug)]
pub struct ForumState {
    pub forums: Vec<Forum>,
    pub current_forum_id: Option<u128>,
    pub current_thread_id: Option<u128>,
    pub pending_new_thread_title: Option<String>,
    pub forum_list_state: ListSelection,
    pub thread_list_state: ListSelection,
    pub selected_post_index: Option<usize>,
    pub selected_reply_index: Option<usize>,
    pub reply_to_post_id: Option<u128>,
    pub scroll_offset: usize,
    /// Whether the post that the selected post answers is shown beside it.
    pub show_reply_context: bool,
}

impl ForumState {
    /// The position of the forum shown.
    pub open spec fn current_forum_pos(&self) -> Option<int> {
        match self.current_forum_id {
            Some(id) => find_forum(self.forums@, id),
            None => None,
        }
    }

    /// The posts of the thread shown, if it is found.
    pub open spec fn current_posts(&self) -> Option<Seq<Post>> {
        match self.current_forum_pos() {
            Some(fi) => match self.current_thread_id {
                Some(tid) => match find_thread(self.forums@[fi].threads@, tid) {
                    Some(ti) => Some(self.forums@[fi].threads@[ti].posts@),
                    None => None,
                },
                None => None,
            },
            None => None,
        }
    }

    /// The state of a new session (see `new`).
    pub open spec fn is_fresh(&self) -> bool {
        &&& self.forums@.len() == 0
        &&& self.current_forum_id is None
        &&& self.current_thread_id is None
        &&& self.pending_new_thread_title is None
        &&& self.forum_list_state.selected is None
        &&& self.thread_list_state.selected is None
        &&& self.selected_post_index is None
        &&& self.selected_reply_index is None
        &&& self.reply_to_post_id is None
        &&& self.scroll_offset == 0
        &&& !self.show_reply_context
    }

    /// Nothing loaded or selected.
    pub fn new() -> (r: ForumState)
        ensures
            r.is_fresh(),
    {
        ForumState {
            forums: Vec::new(),
            current_forum_id: None,
            current_thread_id: None,
            pending_new_thread_title: None,
            forum_list_state: ListSelection::new(),
            thread_list_state: ListSelection::new(),
            selected_post_index: None,
            selected_reply_index: None,
            reply_to_post_id: None,
            scroll_offset: 0,
            show_reply_context: false,
        }
    }

    /// The position of the forum shown (see `current_forum_pos`).
    pub fn forum_pos(&self) -> (r: Option<usize>)
        ensures
            r is Some ==> self.current_forum_pos() == Some(r->0 as int) && r->0 < self.forums@.len(),
            r is None ==> self.current_forum_pos() is None,
    {
        match self.current_forum_id {
            None => None,
            Some(id) => {
                let mut i: usize = 0;
                let ghost s = self.forums@;
                assert(s.skip(0) =~= s);
                while i < self.forums.len()
                    invariant
                        i <= s.len(),
                        s == self.forums@,
                        self.current_forum_id == Some(id),
                        find_forum(s, id) == match find_forum(s.skip(i as int), id) {
                            Some(k) => Some(k + i),
                            None => None::<int>,
                        },
                    decreases s.len() - i,
                {
                    if self.forums[i].id == id {
                        assert(s.skip(i as int)[0].id == id);
                        assert(find_forum(s.skip(i as int), id) == Some(0int));
                        assert(find_forum(s, id) == Some(i as int));
                        return Some(i);
                    }
                    assert(s.skip(i as int).drop_first() =~= s.skip(i + 1));
                    i = i + 1;
                }
                assert(s.skip(i as int) =~= Seq::<Forum>::empty());
                None
            }
        }
    }

    fn thread_pos(&self, fi: usize) -> (r: Option<usize>)
        requires
            self.current_forum_pos() == Some(fi as int),
            fi < self.forums@.len(),
        ensures
            r is Some ==> (r->0 < self.forums@[fi as int].threads@.len() && self.current_thread_id is Some
                && find_thread(self.forums@[fi as int].threads@, self.current_thread_id->0) == Some(r->0 as int)),
            r is None ==> self.current_posts() is None,
    {
        match self.current_thread_id {
            None => None,
            Some(id) => {
                let threads = &self.forums[fi].threads;
                let ghost s = threads@;
                let mut i: usize = 0;
                assert(s.skip(0) =~= s);
                while i < threads.len()
                    invariant
                        i <= s.len(),
                        s == threads@,
                        s == self.forums@[fi as int].threads@,
                        self.current_thread_id == Some(id),
                        find_thread(s, id) == match find_thread(s.skip(i as int), id) {
                            Some(k) => Some(k + i),
                            None => None::<int>,
                        },
                    decreases s.len() - i,
                {
                    if threads[i].id == id {
                        assert(s.skip(i as int)[0].id == id);
                        return Some(i);
                    }
                    assert(s.skip(i as int).drop_first() =~= s.skip(i + 1));
                    i = i + 1;
                }
                assert(s.skip(i as int) =~= Seq::<Thread>::empty());
                None
            }
        }
    }

    /// The forum shown: the first with the current forum id.
    pub fn get_current_forum(&self) -> (r: Option<&Forum>)
        ensures
            r is Some <==> self.current_forum_pos() is Some,
            r matches Some(f) ==> *f == self.forums@[self.current_forum_pos()->0],
    {
        match self.forum_pos() {
            Some(i) => Some(&self.forums[i]),
            None => None,
        }
    }

    /// The thread shown: the first with the current thread id in the forum
    /// shown.
    pub fn get_current_thread(&self) -> (r: Option<&Thread>)
        ensures
            r is Some <==> self.current_posts() is Some,
            r matches Some(t) ==> t.posts@ == self.current_posts()->0,
    {
        match self.forum_pos() {
            Some(fi) => match self.thread_pos(fi) {
                Some(ti) => Some(&self.forums[fi].threads[ti]),
                None => None,
            },
            None => None,
        }
    }

    /// Shows a forum and selects its first thread.
    pub fn select_forum(&mut self, forum_id: u128)
        ensures
            *final(self) == (ForumState {
                current_forum_id: Some(forum_id),
                thread_list_state: ListSelection { selected: Some(0) },
                ..*old(self)
            }),
    {
        self.current_forum_id = Some(forum_id);
        self.thread_list_state.select(Some(0));
    }

    /// Shows a thread, selecting its first post, with no reply selected, no
    /// reply target, scrolled to the top.
    pub fn select_thread(&mut self, thread_id: u128)
        ensures
            *final(self) == (ForumState {
                current_thread_id: Some(thread_id),
                selected_post_index: Some(0),
                selected_reply_index: None,
                reply_to_post_id: None,
                scroll_offset: 0,
                ..*old(self)
            }),
    {
        self.current_thread_id = Some(thread_id);
        self.selected_post_index = Some(0);
        self.selected_reply_index = None;
        self.reply_to_post_id = None;
        self.scroll_offset = 0;
    }

    /// Forgets the title of the thread being created.
    pub fn clear_pending_thread(&mut self)
        ensures
            *final(self) == (ForumState { pending_new_thread_title: None, ..*old(self) }),
    {
        self.pending_new_thread_title = None;
    }

    /// The post count of the thread shown (0 when none is found).
    fn post_count(&self) -> (r: usize)
        ensures
            r == match self.current_posts() {
                Some(p) => p.len(),
                None => 0,
            },
    {
        match self.get_current_thread() {
            Some(t) => t.posts.len(),
            None => 0,
        }
    }

    /// The scroll offset that keeps the selected post on screen, assuming
    /// five posts fit: scrolled up to a post above, down to one below, and
    /// never past the last five posts.
    pub open spec fn auto_scrolled(offset: int, selected: int, len: int) -> int {
        let o = if selected < offset {
            selected
        } else if selected >= offset + 5 {
            if selected >= 4 { selected - 4 } else { 0 }
        } else {
            offset
        };
        let max = if len >= 5 { len - 5 } else { 0 };
        if o <= max { o } else { max }
    }

    /// Keeps the selected post on screen (see `auto_scrolled`).
    pub fn auto_scroll_to_selected_post(&mut self)
        ensures
            (old(self).current_posts() is Some && old(self).selected_post_index is Some
                && old(self).current_posts()->0.len() > 0)
                ==> *final(self) == (ForumState {
                    scroll_offset: Self::auto_scrolled(old(self).scroll_offset as int,
                        old(self).selected_post_index->0 as int, old(self).current_posts()->0.len() as int) as usize,
                    ..*old(self)
                }),
            !(old(self).current_posts() is Some && old(self).selected_post_index is Some
                && old(self).current_posts()->0.len() > 0) ==> *final(self) == *old(self),
    {
        let len = self.post_count();
        if self.get_current_thread().is_none() || len == 0 {
            return;
        }
        match self.selected_post_index {
            None => {}
            Some(sel) => {
                let mut o = self.scroll_offset;
                if sel < o {
                    o = sel;
                } else if sel - o >= VISIBLE_POSTS {
                    o = sel.saturating_sub(VISIBLE_POSTS - 1);
                }
                let max = len.saturating_sub(VISIBLE_POSTS);
                if o > max {
                    o = max;
                }
                self.scroll_offset = o;
            }
        }
    }

    /// What `move_post_selection` does.
    pub open spec fn post_selection_moved(o: ForumState, n: ForumState, direction: i32) -> bool {
        if o.current_posts() is None || o.current_posts()->0.len() == 0 {
            n == o
        } else {
            let p = o.current_posts()->0;
            let cur = match o.selected_post_index { Some(c) => c as int, None => 0 };
            let k = if direction > 0 {
                if cur + 1 <= p.len() - 1 { cur + 1 } else { p.len() - 1 }
            } else {
                if cur >= 1 { cur - 1 } else { 0 }
            };
            n == (ForumState {
                selected_post_index: Some(k as usize),
                selected_reply_index: None,
                scroll_offset: Self::auto_scrolled(o.scroll_offset as int, k, p.len() as int) as usize,
                ..o
            })
        }
    }

    /// Moves the selection one post down (`direction > 0`) or up, within
    /// the thread, forgets the selected reply and keeps the post on screen.
    pub fn move_post_selection(&mut self, direction: i32)
        ensures
            Self::post_selection_moved(*old(self), *final(self), direction),
    {
        let len = self.post_count();
        if self.get_current_thread().is_none() || len == 0 {
            return;
        }
        let current = match self.selected_post_index {
            Some(c) => c,
            None => 0,
        };
        let new_index = if direction > 0 {
            if current >= len - 1 { len - 1 } else { current + 1 }
        } else {
            current.saturating_sub(1)
        };
        self.selected_post_index = Some(new_index);
        self.selected_reply_index = None;
        self.auto_scroll_to_selected_post();
    }

    /// What `scroll_posts` does.
    pub open spec fn posts_scrolled(o: ForumState, n: ForumState, direction: i32, amount: usize) -> bool {
        if o.current_posts() is None || o.current_posts()->0.len() == 0 {
            n == o
        } else {
            n == (ForumState {
                scroll_offset: (if direction > 0 {
                    let p = o.current_posts()->0;
                    if o.scroll_offset + amount <= p.len() - 1 { o.scroll_offset + amount } else { p.len() - 1 }
                } else {
                    if o.scroll_offset >= amount { o.scroll_offset - amount } else { 0 }
                }) as usize,
                ..o
            })
        }
    }

    /// Scrolls down (`direction > 0`) by `amount` posts, at most to the
    /// last post, or up by `amount`, at most to the top.
    pub fn scroll_posts(&mut self, direction: i32, amount: usize)
        ensures
            Self::posts_scrolled(*old(self), *final(self), direction, amount),
    {
        let len = self.post_count();
        if self.get_current_thread().is_none() || len == 0 {
            return;
        }
        if direction > 0 {
            let max_offset = len - 1;
            self.scroll_offset = if self.scroll_offset >= max_offset || amount > max_offset - self.scroll_offset {
                max_offset
            } else {
                self.scroll_offset + amount
            };
        } else {
            self.scroll_offset = self.scroll_offset.saturating_sub(amount);
        }
    }

    /// Scrolls so that the post at `post_index` is at the top.
    pub fn scroll_to_post(&mut self, post_index: usize)
        ensures
            *final(self) == (ForumState { scroll_offset: post_index, ..*old(self) }),
    {
        self.scroll_offset = post_index;
    }

    /// Sets the post that the next post answers.
    pub fn set_reply_target(&mut self, post_id: Option<u128>)
        ensures
            *final(self) == (ForumState { reply_to_post_id: post_id, ..*old(self) }),
    {
        self.reply_to_post_id = post_id;
    }

    /// Shows or hides the post that the selected post answers.
    pub fn toggle_reply_context(&mut self)
        ensures
            *final(self) == (ForumState { show_reply_context: !old(self).show_reply_context, ..*old(self) }),
    {
        self.show_reply_context = !self.show_reply_context;
    }
}

impl ForumState {
    /// The selected post of the thread shown.
    pub open spec fn selected_post_spec(&self) -> Option<Post> {
        match (self.current_posts(), self.selected_post_index) {
            (Some(p), Some(i)) => if i < p.len() { Some(p[i as int]) } else { None },
            _ => None,
        }
    }

    /// The positions of the replies to the selected post.
    pub open spec fn selected_replies(&self) -> Option<Seq<int>> {
        match self.selected_post_spec() {
            Some(post) => Some(reply_positions(self.current_posts()->0, post.id)),
            None => None,
        }
    }

    /// The positions of the posts of `posts` that answer the post `post_id`.
    fn reply_indices(posts: &Vec<Post>, post_id: u128) -> (r: Vec<usize>)
        ensures
            r@.len() == reply_positions(posts@, post_id).len(),
            forall|j: int| 0 <= j < r@.len() ==> r@[j] as int == #[trigger] reply_positions(posts@, post_id)[j],
            forall|j: int| 0 <= j < r@.len() ==> #[trigger] r@[j] < posts@.len(),
    {
        let ghost p = posts@;
        let mut r: Vec<usize> = Vec::new();
        let mut i: usize = 0;
        while i < posts.len()
            invariant
                i <= p.len(),
                p == posts@,
                r@.len() == reply_positions(p.take(i as int), post_id).len(),
                forall|j: int| 0 <= j < r@.len() ==> r@[j] as int == #[trigger] reply_positions(p.take(i as int), post_id)[j],
                forall|j: int| 0 <= j < r@.len() ==> #[trigger] r@[j] < i,
            decreases p.len() - i,
        {
            assert(p.take(i + 1).drop_last() =~= p.take(i as int));
            assert(p.take(i + 1).last() == p[i as int]);
            if posts[i].reply_to == Some(post_id) {
                r.push(i);
            }
            i = i + 1;
        }
        assert(p.take(i as int) =~= p);
        r
    }

    /// The posts of the thread shown that answer the post `post_id`, with
    /// their positions, in order; none when no thread is shown.
    pub fn get_replies_to_post(&self, post_id: u128) -> (r: Vec<(usize, &Post)>)
        ensures
            self.current_posts() is None ==> r@.len() == 0,
            self.current_posts() is Some ==> r@.len() == reply_positions(self.current_posts()->0, post_id).len(),
            self.current_posts() is Some ==> forall|j: int| 0 <= j < r@.len() ==> r@[j].0 as int
                == #[trigger] reply_positions(self.current_posts()->0, post_id)[j]
                && *r@[j].1 == self.current_posts()->0[r@[j].0 as int],
    {
        let mut r: Vec<(usize, &Post)> = Vec::new();
        match self.get_current_thread() {
            None => r,
            Some(thread) => {
                let idx = Self::reply_indices(&thread.posts, post_id);
                let mut k: usize = 0;
                while k < idx.len()
                    invariant
                        k <= idx@.len(),
                        r@.len() == k,
                        forall|j: int| 0 <= j < idx@.len() ==> #[trigger] idx@[j] < thread.posts@.len(),
                        forall|j: int| 0 <= j < k ==> r@[j].0 == #[trigger] idx@[j] && *r@[j].1 == thread.posts@[idx@[j] as int],
                    decreases idx@.len() - k,
                {
                    let i = idx[k];
                    r.push((i, &thread.posts[i]));
                    k = k + 1;
                }
                assert forall|j: int| 0 <= j < r@.len() implies r@[j].0 as int
                    == #[trigger] reply_positions(self.current_posts()->0, post_id)[j]
                    && *r@[j].1 == self.current_posts()->0[r@[j].0 as int] by {
                    assert(r@[j].0 == idx@[j]);
                }
                r
            }
        }
    }

    /// The selected post of the thread shown, if it exists.
    pub fn get_selected_post(&self) -> (r: Option<&Post>)
        ensures
            r is Some <==> self.selected_post_spec() is Some,
            r matches Some(post) ==> *post == self.selected_post_spec()->0,
    {
        match (self.get_current_thread(), self.selected_post_index) {
            (Some(t), Some(i)) => if i < t.posts.len() { Some(&t.posts[i]) } else { None },
            _ => None,
        }
    }

    /// What `move_reply_selection` does.
    pub open spec fn reply_selection_moved(o: ForumState, n: ForumState, direction: i32) -> bool {
        if o.selected_replies() is None || o.selected_replies()->0.len() == 0 {
            n == o
        } else {
            let k = o.selected_replies()->0.len() as int;
            let cur = match o.selected_reply_index { Some(c) => c as int, None => 0 };
            n == (ForumState {
                selected_reply_index: Some((if direction > 0 { (cur + 1) % k } else { (cur + k - 1) % k }) as usize),
                ..o
            })
        }
    }

    /// Moves the reply selection to the next (`direction > 0`) or previous
    /// reply of the selected post, wrapping around; nothing changes when the
    /// post has no replies.
    pub fn move_reply_selection(&mut self, direction: i32)
        ensures
            Self::reply_selection_moved(*old(self), *final(self), direction),
    {
        let n = match self.get_selected_post() {
            None => return,
            Some(post) => self.get_replies_to_post(post.id).len(),
        };
        if n == 0 {
            return;
        }
        let cur = match self.selected_reply_index {
            Some(c) => c,
            None => 0,
        };
        let c = cur % n;
        let new_index = if direction > 0 {
            if c + 1 == n { 0 } else { c + 1 }
        } else {
            if c == 0 { n - 1 } else { c - 1 }
        };
        proof {
            let ci = cur as int;
            let ni = n as int;
            let m = ci % ni;
            assert(0 <= m < ni && ci == (ci / ni) * ni + m) by (nonlinear_arith)
                requires ni > 0, ci >= 0, m == ci % ni;
            let q = ci / ni;
            assert((ci + 1) % ni == (if m + 1 == ni { 0 } else { m + 1 })) by (nonlinear_arith)
                requires ni > 0, ci >= 0, 0 <= m < ni, ci == q * ni + m;
            assert((ci + ni - 1) % ni == (if m == 0 { ni - 1 } else { m - 1 })) by (nonlinear_arith)
                requires ni > 0, ci >= 0, 0 <= m < ni, ci == q * ni + m;
        }
        self.selected_reply_index = Some(new_index);
    }

    /// The reply selected among the replies to the selected post.
    pub fn get_selected_reply_post(&self) -> (r: Option<&Post>)
        ensures
            r is Some <==> (self.selected_replies() is Some && self.selected_reply_index is Some
                && self.selected_reply_index->0 < self.selected_replies()->0.len()),
            r matches Some(post) ==> *post == self.current_posts()->0[
                self.selected_replies()->0[self.selected_reply_index->0 as int]],
    {
        match (self.get_selected_post(), self.selected_reply_index) {
            (Some(post), Some(ri)) => {
                let replies = self.get_replies_to_post(post.id);
                if ri < replies.len() {
                    Some(replies[ri].1)
                } else {
                    None
                }
            }
            _ => None,
        }
    }

    /// What `jump_to_replied_post` does and returns.
    pub open spec fn jumped_to_replied(o: ForumState, n: ForumState, r: bool) -> bool {
        &&& r <==> (o.selected_post_spec() matches Some(post) && post.reply_to is Some
            && find_post(o.current_posts()->0, post.reply_to->0) is Some)
        &&& !r ==> n == o
        &&& r ==> {
            let target = find_post(o.current_posts()->0, o.selected_post_spec()->0.reply_to->0)->0;
            n == (ForumState {
                selected_post_index: Some(target as usize),
                selected_reply_index: None,
                scroll_offset: target as usize,
                ..o
            })
        }
    }

    /// Selects the post that the selected post answers and scrolls to it;
    /// false, with nothing changed, when the selected post answers none
    /// that is in the thread.
    pub fn jump_to_replied_post(&mut self) -> (r: bool)
        ensures
            Self::jumped_to_replied(*old(self), *final(self), r),
    {
        let target = match self.get_selected_post() {
            None => return false,
            Some(post) => match post.reply_to {
                None => return false,
                Some(id) => {
                    let posts = &self.get_current_thread().unwrap().posts;
                    let ghost p = posts@;
                    let mut i: usize = 0;
                    let mut found: Option<usize> = None;
                    assert(p.skip(0) =~= p);
                    while i < posts.len() && found.is_none()
                        invariant
                            i <= p.len(),
                            p == posts@,
                            found is None ==> find_post(p, id) == match find_post(p.skip(i as int), id) {
                                Some(k) => Some(k + i),
                                None => None::<int>,
                            },
                            found matches Some(f) ==> find_post(p, id) == Some(f as int) && f < p.len(),
                        decreases p.len() - i + (if found is None { 1int } else { 0int }),
                    {
                        if posts[i].id == id {
                            assert(p.skip(i as int)[0].id == id);
                            found = Some(i);
                        } else {
                            assert(p.skip(i as int).drop_first() =~= p.skip(i + 1));
                            i = i + 1;
                        }
                    }
                    if found.is_none() {
                        assert(p.skip(i as int) =~= Seq::<Post>::empty());
                    }
                    found
                }
            },
        };
        match target {
            None => false,
            Some(idx) => {
                self.selected_post_index = Some(idx);
                self.selected_reply_index = None;
                self.scroll_to_post(idx);
                true
            }
        }
    }
}

impl Default for ForumState {
    fn default() -> (r: ForumState)
        ensures
            r.forums@.len() == 0,
            r.current_forum_id is None,
            r.current_thread_id is None,
    {
        ForumState::new()
    }
}

} // verus!
