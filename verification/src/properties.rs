//! Properties that hold across calls of the library: what the text
//! processing keeps, how suggestion lists are ordered, what the image cache
//! gives back of what was stored, and how the screen state moves.

use vstd::prelude::*;
use crate::text::{
    dedup_strings, insert_sorted, lex_le, lex_lt, sort_strings, spec_is_whitespace, trim, trim_end,
    trim_start,
};
use crate::services::message::message_is_valid;
use crate::services::chat::{
    emoji_suggestions_spec, mention_suggestions_spec, names_with_prefix, typed_word,
};
use crate::model::User;
use crate::services::image::{
    CacheKey, ImageCacheConfig, ImageView, evicted_size, expired_at, get_outcome, kept_after, lists_keys, live_at,
    put_outcome, touched,
    without_expired,
};
use crate::services::chat::{avatar_outcome, wants_more_history};
use crate::state::chat::{ChatState, ChatTarget, current_draft, draft_of};
use crate::state::notification::close_tick;
use crate::appearance::{ascii_lower, background_names, eq_ignore_ascii_case_spec, position_ignoring_case, theme_names};
use crate::avatar::masked;
use crate::handlers::chat::{
    chat_key, chat_popup_shown, message_key, dm_key_lt, dm_order, dm_order_upto, insert_by_key, max_scroll, rows_shown,
    scrolled_down, scrolled_up,
};
use crate::state::chat::ChatFocus;
use crate::app::{allowed_effects, App, Effect};
use crate::prefs::{GlobalPrefs, GlobalPrefsCell, prefs_filled, prefs_readable};
use crate::handlers::auth::auth_key;
use crate::handlers::profile::{next_focus, profile_edit_key};
use crate::state::profile::{ProfileEditFocus, ProfileState};
use crate::input::{KeyCode, KeyEvent};
use crate::state::auth::AuthState;
use crate::server_events::{insert_desc, sort_users_desc, user_key};
use crate::notify::{preview_ok, preview_text};
use crate::state::forum::{ForumState, find_thread};
use crate::services::chat::byte_offset;
use crate::text::lemma_encode_utf8_concat;
use vstd::utf8::encode_utf8;
use crate::text::{has_prefix, lowercase};
use crate::codec::{base64_decoded, base64_encoding, lemma_base64_encoding_injective};
use crate::model::{ChannelMessage, ClientMessage, DirectMessage, ServerMessage};
use crate::server_events::server_message_outcome;
use crate::services::chat::{should_fetch_spec, last_occurrence, replace_last_word};
use crate::app::{sent_message, outgoing_text, mention_applied, emoji_applied};
use crate::services::message::{is_command, command_words};
use crate::sound::SoundType;
use crate::state::auth::InputMode;
use crate::handlers::navigation::input_mode_key;

verus! {

// ---------------------------------------------------------------------
// Trimming
// ---------------------------------------------------------------------

proof fn lemma_trim_start_first(s: Seq<char>)
    ensures
        trim_start(s).len() == 0 || !spec_is_whitespace(trim_start(s)[0]),
    decreases s.len(),
{
    if s.len() > 0 && spec_is_whitespace(s[0]) {
        lemma_trim_start_first(s.drop_first());
    }
}

proof fn lemma_trim_end_last(s: Seq<char>)
    ensures
        trim_end(s).len() == 0 || !spec_is_whitespace(trim_end(s).last()),
        trim_end(s).len() <= s.len(),
        trim_end(s) == s.take(trim_end(s).len() as int),
    decreases s.len(),
{
    if s.len() > 0 && spec_is_whitespace(s.last()) {
        lemma_trim_end_last(s.drop_last());
        let t = trim_end(s.drop_last());
        assert(s.drop_last().take(t.len() as int) =~= s.take(t.len() as int));
    } else {
        assert(s.take(s.len() as int) =~= s);
    }
}

/// Trimming twice is trimming once.
pub proof fn law_trim_idempotent(s: Seq<char>)
    ensures
        trim(trim(s)) == trim(s),
{
    let t = trim_start(s);
    let u = trim_end(t);
    lemma_trim_start_first(s);
    lemma_trim_end_last(t);
    if u.len() > 0 {
        assert(u[0] == t[0]);
    }
    assert(trim_start(u) == u);
    assert(trim_end(u) == u);
}

/// A message that validation accepts is accepted again as validation
/// returned it, and comes back unchanged.
pub proof fn law_validated_message_is_stable(content: Seq<char>)
    requires
        message_is_valid(content),
    ensures
        message_is_valid(trim(content)),
        trim(trim(content)) == trim(content),
{
    law_trim_idempotent(content);
}

// ---------------------------------------------------------------------
// The order of strings
// ---------------------------------------------------------------------

/// The strings are in ascending order.
pub open spec fn ascending(s: Seq<Seq<char>>) -> bool {
    forall|i: int, j: int| 0 <= i < j < s.len() ==> lex_le(#[trigger] s[i], #[trigger] s[j])
}

/// The strings are in strictly ascending order, so none occurs twice.
pub open spec fn strictly_ascending(s: Seq<Seq<char>>) -> bool {
    forall|i: int, j: int| 0 <= i < j < s.len() ==> lex_lt(#[trigger] s[i], #[trigger] s[j])
}

proof fn lemma_lex_irreflexive(a: Seq<char>)
    ensures
        !lex_lt(a, a),
    decreases a.len(),
{
    if a.len() > 0 {
        lemma_lex_irreflexive(a.drop_first());
    }
}

proof fn lemma_lex_transitive(a: Seq<char>, b: Seq<char>, c: Seq<char>)
    requires
        lex_lt(a, b),
        lex_lt(b, c),
    ensures
        lex_lt(a, c),
    decreases a.len(),
{
    if a.len() > 0 && b.len() > 0 && c.len() > 0 && a[0] == b[0] && b[0] == c[0] {
        lemma_lex_transitive(a.drop_first(), b.drop_first(), c.drop_first());
    }
}

proof fn lemma_lex_total(a: Seq<char>, b: Seq<char>)
    requires
        a != b,
    ensures
        lex_lt(a, b) || lex_lt(b, a),
    decreases a.len(),
{
    if a.len() > 0 && b.len() > 0 {
        if a[0] == b[0] {
            if a.drop_first() == b.drop_first() {
                assert(a =~= seq![a[0]] + a.drop_first());
                assert(b =~= seq![b[0]] + b.drop_first());
            }
            lemma_lex_total(a.drop_first(), b.drop_first());
        } else {
            vstd::utf8::char_u32_cast(a[0], a[0] as u32);
            vstd::utf8::char_u32_cast(b[0], b[0] as u32);
            assert((a[0] as u32) != (b[0] as u32));
        }
    } else if a.len() == 0 && b.len() == 0 {
        assert(a =~= b);
    }
}

proof fn lemma_lex_le_transitive(a: Seq<char>, b: Seq<char>, c: Seq<char>)
    requires
        lex_le(a, b),
        lex_le(b, c),
    ensures
        lex_le(a, c),
        lex_lt(a, b) ==> lex_lt(a, c),
        lex_lt(b, c) ==> lex_lt(a, c),
{
    if lex_lt(a, b) && lex_lt(b, c) {
        lemma_lex_transitive(a, b, c);
    }
}

proof fn lemma_not_le_flips(a: Seq<char>, b: Seq<char>)
    requires
        !lex_le(a, b),
    ensures
        lex_lt(b, a),
{
    lemma_lex_total(a, b);
}

proof fn lemma_insert_sorted(x: Seq<char>, s: Seq<Seq<char>>)
    requires
        ascending(s),
    ensures
        ascending(insert_sorted(x, s)),
        insert_sorted(x, s).len() == s.len() + 1,
        forall|y: Seq<char>| #[trigger] insert_sorted(x, s).contains(y) <==> (y == x || s.contains(y)),
    decreases s.len(),
{
    let r = insert_sorted(x, s);
    if s.len() == 0 {
        assert forall|y: Seq<char>| r.contains(y) <==> (y == x || s.contains(y)) by {
            if y == x {
                assert(r[0] == x);
            }
        }
    } else if lex_le(x, s[0]) {
        assert forall|i: int, j: int| 0 <= i < j < r.len() implies lex_le(#[trigger] r[i], #[trigger] r[j]) by {
            if i == 0 {
                assert(r[j] == s[j - 1]);
                if j - 1 > 0 {
                    assert(lex_le(s[0], s[j - 1]));
                    lemma_lex_le_transitive(x, s[0], s[j - 1]);
                }
            } else {
                assert(r[i] == s[i - 1] && r[j] == s[j - 1]);
            }
        }
        assert forall|y: Seq<char>| r.contains(y) <==> (y == x || s.contains(y)) by {
            if r.contains(y) {
                let k = choose|k: int| 0 <= k < r.len() && r[k] == y;
                if k > 0 {
                    assert(s[k - 1] == y);
                }
            }
            if y == x {
                assert(r[0] == y);
            }
            if s.contains(y) {
                let k = choose|k: int| 0 <= k < s.len() && s[k] == y;
                assert(r[k + 1] == y);
            }
        }
    } else {
        let t = s.drop_first();
        assert(ascending(t)) by {
            assert forall|i: int, j: int| 0 <= i < j < t.len() implies lex_le(#[trigger] t[i], #[trigger] t[j]) by {
                assert(t[i] == s[i + 1] && t[j] == s[j + 1]);
            }
        }
        lemma_insert_sorted(x, t);
        let q = insert_sorted(x, t);
        assert(r == seq![s[0]] + q);
        lemma_not_le_flips(x, s[0]);
        assert forall|i: int, j: int| 0 <= i < j < r.len() implies lex_le(#[trigger] r[i], #[trigger] r[j]) by {
            if i == 0 {
                assert(r[j] == q[j - 1]);
                assert(q.contains(q[j - 1]));
                if q[j - 1] != x {
                    assert(t.contains(q[j - 1]));
                    let k = choose|k: int| 0 <= k < t.len() && t[k] == q[j - 1];
                    assert(t[k] == s[k + 1]);
                    assert(lex_le(s[0], s[k + 1]));
                }
            } else {
                assert(r[i] == q[i - 1] && r[j] == q[j - 1]);
            }
        }
        assert forall|y: Seq<char>| r.contains(y) <==> (y == x || s.contains(y)) by {
            if r.contains(y) {
                let k = choose|k: int| 0 <= k < r.len() && r[k] == y;
                if k > 0 {
                    assert(q[k - 1] == y);
                    assert(q.contains(y));
                    if y != x {
                        assert(t.contains(y));
                        let m = choose|m: int| 0 <= m < t.len() && t[m] == y;
                        assert(s[m + 1] == y);
                    }
                }
            }
            if y == x {
                assert(q.contains(y));
                let k = choose|k: int| 0 <= k < q.len() && q[k] == y;
                assert(r[k + 1] == y);
            }
            if s.contains(y) {
                let k = choose|k: int| 0 <= k < s.len() && s[k] == y;
                if k == 0 {
                    assert(r[0] == y);
                } else {
                    assert(t[k - 1] == y);
                    assert(q.contains(y));
                    let m = choose|m: int| 0 <= m < q.len() && q[m] == y;
                    assert(r[m + 1] == y);
                }
            }
        }
    }
}

/// Sorting puts the strings in ascending order and keeps exactly the
/// strings it was given.
pub proof fn law_sort_strings(s: Seq<Seq<char>>)
    ensures
        ascending(sort_strings(s)),
        sort_strings(s).len() == s.len(),
        forall|y: Seq<char>| #[trigger] sort_strings(s).contains(y) <==> s.contains(y),
    decreases s.len(),
{
    if s.len() > 0 {
        let t = s.drop_last();
        law_sort_strings(t);
        lemma_insert_sorted(s.last(), sort_strings(t));
        assert forall|y: Seq<char>| sort_strings(s).contains(y) <==> s.contains(y) by {
            if t.contains(y) {
                let k = choose|k: int| 0 <= k < t.len() && t[k] == y;
                assert(s[k] == y);
            }
            if s.contains(y) && y != s.last() {
                let k = choose|k: int| 0 <= k < s.len() && s[k] == y;
                assert(t[k] == y);
            }
            if y == s.last() {
                assert(s[s.len() - 1] == y);
            }
        }
    }
}

/// Dropping repeated neighbours from ascending strings leaves them
/// strictly ascending, with the same strings and the same last one.
pub proof fn law_dedup_sorted(s: Seq<Seq<char>>)
    requires
        ascending(s),
    ensures
        strictly_ascending(dedup_strings(s)),
        forall|y: Seq<char>| #[trigger] dedup_strings(s).contains(y) <==> s.contains(y),
        s.len() > 0 ==> dedup_strings(s).len() > 0 && dedup_strings(s).last() == s.last(),
        dedup_strings(s).len() <= s.len(),
    decreases s.len(),
{
    let d = dedup_strings(s);
    if s.len() <= 1 {
        if s.len() == 1 {
            assert(d == s);
        }
    } else {
        let t = s.drop_last();
        assert(ascending(t)) by {
            assert forall|i: int, j: int| 0 <= i < j < t.len() implies lex_le(#[trigger] t[i], #[trigger] t[j]) by {
                assert(t[i] == s[i] && t[j] == s[j]);
            }
        }
        law_dedup_sorted(t);
        let e = dedup_strings(t);
        assert(t.last() == s[s.len() - 2]);
        assert(lex_le(s[s.len() - 2], s.last()));
        if s[s.len() - 2] == s.last() {
            assert(d == e);
            assert forall|y: Seq<char>| d.contains(y) <==> s.contains(y) by {
                if t.contains(y) {
                    let k = choose|k: int| 0 <= k < t.len() && t[k] == y;
                    assert(s[k] == y);
                }
                if s.contains(y) {
                    let k = choose|k: int| 0 <= k < s.len() && s[k] == y;
                    if k < s.len() - 1 {
                        assert(t[k] == y);
                    } else {
                        assert(t[s.len() - 2] == y);
                    }
                }
            }
        } else {
            assert(d == e.push(s.last()));
            assert(lex_lt(e.last(), s.last()));
            assert forall|i: int, j: int| 0 <= i < j < d.len() implies lex_lt(#[trigger] d[i], #[trigger] d[j]) by {
                if j == d.len() - 1 {
                    assert(d[j] == s.last());
                    assert(d[i] == e[i]);
                    if i < e.len() - 1 {
                        assert(lex_lt(e[i], e[e.len() - 1]));
                        lemma_lex_transitive(e[i], e.last(), s.last());
                    }
                } else {
                    assert(d[i] == e[i] && d[j] == e[j]);
                }
            }
            assert forall|y: Seq<char>| d.contains(y) <==> s.contains(y) by {
                if d.contains(y) {
                    let k = choose|k: int| 0 <= k < d.len() && d[k] == y;
                    if k < e.len() {
                        assert(e[k] == y);
                        assert(e.contains(y));
                        assert(t.contains(y));
                        let m = choose|m: int| 0 <= m < t.len() && t[m] == y;
                        assert(s[m] == y);
                    } else {
                        assert(s[s.len() - 1] == y);
                    }
                }
                if s.contains(y) {
                    let k = choose|k: int| 0 <= k < s.len() && s[k] == y;
                    if k < s.len() - 1 {
                        assert(t[k] == y);
                        assert(t.contains(y));
                        assert(e.contains(y));
                        let m = choose|m: int| 0 <= m < e.len() && e[m] == y;
                        assert(d[m] == y);
                    } else {
                        assert(d[d.len() - 1] == y);
                    }
                }
            }
        }
    }
}

// ---------------------------------------------------------------------
// Suggestions
// ---------------------------------------------------------------------

proof fn lemma_names_with_prefix(users: Seq<User>, p: Seq<char>, n: Seq<char>)
    ensures
        names_with_prefix(users, p).contains(n) <==> exists|j: int|
            0 <= j < users.len() && #[trigger] users[j].username@ == n && has_prefix(lowercase(n), p),
    decreases users.len(),
{
    if users.len() > 0 {
        let t = users.drop_last();
        let rest = names_with_prefix(t, p);
        lemma_names_with_prefix(t, p, n);
        let r = names_with_prefix(users, p);
        if r.contains(n) {
            let k = choose|k: int| 0 <= k < r.len() && r[k] == n;
            if k < rest.len() {
                assert(rest[k] == n);
                assert(rest.contains(n));
                let j = choose|j: int| 0 <= j < t.len() && #[trigger] t[j].username@ == n && has_prefix(lowercase(n), p);
                assert(users[j] == t[j]);
            } else {
                assert(users[users.len() - 1].username@ == n);
            }
        }
        if exists|j: int| 0 <= j < users.len() && #[trigger] users[j].username@ == n && has_prefix(lowercase(n), p) {
            let j = choose|j: int| 0 <= j < users.len() && #[trigger] users[j].username@ == n && has_prefix(lowercase(n), p);
            if j < users.len() - 1 {
                assert(t[j] == users[j]);
                assert(rest.contains(n));
                let k = choose|k: int| 0 <= k < rest.len() && rest[k] == n;
                assert(r[k] == n);
            } else {
                assert(r[r.len() - 1] == n);
            }
        }
    }
}

/// The mention suggestions are in ascending order, and they are exactly
/// the names of the users whose lower-case form starts with the mention
/// being typed, in lower case; there are none when no mention is typed.
pub proof fn law_mention_suggestions(input: Seq<char>, users: Seq<User>, n: Seq<char>)
    ensures
        ascending(mention_suggestions_spec(input, users)),
        mention_suggestions_spec(input, users).contains(n) <==> match typed_word(input, '@', true) {
            Some(w) => exists|j: int| 0 <= j < users.len() && #[trigger] users[j].username@ == n
                && has_prefix(lowercase(n), lowercase(w)),
            None => false,
        },
{
    match typed_word(input, '@', true) {
        Some(w) => {
            let found = names_with_prefix(users, lowercase(w));
            law_sort_strings(found);
            lemma_names_with_prefix(users, lowercase(w), n);
        },
        None => {},
    }
}

/// The emoji suggestions are strictly ascending, so none occurs twice,
/// and there are at most ten.
pub proof fn law_emoji_suggestions(input: Seq<char>)
    ensures
        strictly_ascending(emoji_suggestions_spec(input)),
        emoji_suggestions_spec(input).len() <= 10,
{
    match typed_word(input, ':', false) {
        Some(w) => {
            let hits = crate::services::chat::emoji_hits(crate::services::chat::emoji_table_len(), lowercase(w));
            law_sort_strings(hits);
            law_dedup_sorted(sort_strings(hits));
            let all = dedup_strings(sort_strings(hits));
            if all.len() > 10 {
                let r = all.take(10);
                assert forall|i: int, j: int| 0 <= i < j < r.len() implies lex_lt(#[trigger] r[i], #[trigger] r[j]) by {
                    assert(r[i] == all[i] && r[j] == all[j]);
                }
            }
        },
        None => {},
    }
}

// ---------------------------------------------------------------------
// The image cache
// ---------------------------------------------------------------------

/// What is stored is read back: once `img` is stored under `k`, a lookup
/// of `k` at a time when `img` has not expired returns `img`, touched at
/// that time, and keeps it so.
pub proof fn law_cache_put_then_get(
    before: Map<CacheKey, ImageView>,
    before_count: usize,
    config: ImageCacheConfig,
    k: CacheKey,
    img: ImageView,
    after: Map<CacheKey, ImageView>,
    after_count: usize,
    now: u64,
    result: Option<ImageView>,
    later: Map<CacheKey, ImageView>,
    later_count: usize,
)
    requires
        exists|evicted: Seq<CacheKey>|
            #[trigger] put_outcome(before, before_count, config, k, img, after, after_count, evicted),
        get_outcome(after, after_count, k, now, result, later, later_count),
        !expired_at(img, now),
    ensures
        result == Some(touched(img, now)),
        later == after.insert(k, touched(img, now)),
        later_count == after_count,
{
    let evicted = choose|evicted: Seq<CacheKey>|
        #[trigger] put_outcome(before, before_count, config, k, img, after, after_count, evicted);
    let kept = kept_after(before, evicted, evicted.len() as int);
    assert(after.contains_key(k) && after[k] == img);
}

/// Storing keeps the cache within its limits: afterwards it holds only the
/// new image, or at most `max_entries` images whose byte count is within
/// the size limit.
pub proof fn law_cache_put_within_limits(
    before: Map<CacheKey, ImageView>,
    before_count: usize,
    config: ImageCacheConfig,
    k: CacheKey,
    img: ImageView,
    after: Map<CacheKey, ImageView>,
    after_count: usize,
)
    requires
        before.dom().finite(),
        exists|evicted: Seq<CacheKey>|
            #[trigger] put_outcome(before, before_count, config, k, img, after, after_count, evicted),
    ensures
        after.len() == 1 || (after.len() <= config.max_entries
            && after_count <= config.max_cache_size_mb * 1048576),
{
    let evicted = choose|evicted: Seq<CacheKey>|
        #[trigger] put_outcome(before, before_count, config, k, img, after, after_count, evicted);
    let kept = kept_after(before, evicted, evicted.len() as int);
    assert(kept.dom().subset_of(before.dom()));
    vstd::set_lib::lemma_len_subset(kept.dom(), before.dom());
    assert(kept.dom().finite());
    if kept.len() == 0 {
        assert(kept.dom() =~= Set::<CacheKey>::empty());
        assert(after.dom() =~= set![k]);
        assert(after.len() == 1);
    } else {
        assert(after.dom() =~= kept.dom().insert(k));
        assert(after.len() <= kept.len() + 1);
    }
}

/// A removed key is not found afterwards, and the lookup changes nothing.
pub proof fn law_cache_remove_then_get(
    before: Map<CacheKey, ImageView>,
    k: CacheKey,
    count: usize,
    now: u64,
    result: Option<ImageView>,
    later: Map<CacheKey, ImageView>,
    later_count: usize,
)
    requires
        get_outcome(before.remove(k), count, k, now, result, later, later_count),
    ensures
        result is None,
        later == before.remove(k),
        later_count == count,
{
}

/// A lookup never returns an image that has expired at the time of the
/// lookup, and it leaves no expired image under the key.
pub proof fn law_cache_get_is_live(
    before: Map<CacheKey, ImageView>,
    before_count: usize,
    k: CacheKey,
    now: u64,
    result: Option<ImageView>,
    after: Map<CacheKey, ImageView>,
    after_count: usize,
)
    requires
        get_outcome(before, before_count, k, now, result, after, after_count),
    ensures
        result matches Some(v) ==> !expired_at(v, now),
        after.contains_key(k) ==> !expired_at(after[k], now),
{
}

/// After a cleanup at time `now` no image left has expired at `now`, and
/// every image that had not expired is still there, unchanged.
pub proof fn law_cache_cleanup_keeps_live(m: Map<CacheKey, ImageView>, now: u64, k: CacheKey)
    ensures
        without_expired(m, now).contains_key(k) <==> live_at(m, k, now),
        live_at(m, k, now) ==> without_expired(m, now)[k] == m[k],
        without_expired(m, now).contains_key(k) ==> !expired_at(without_expired(m, now)[k], now),
{
}

/// An avatar that was decoded and cached is served from the cache while
/// it lives: a later request returns it, touched, without decoding again.
pub proof fn law_avatar_served_from_cache(
    before: Map<CacheKey, ImageView>,
    id: u128,
    pic: Seq<char>,
    now: u64,
    img: ImageView,
    after: Map<CacheKey, ImageView>,
    pic2: Seq<char>,
    now2: u64,
    r2: Option<ImageView>,
    after2: Map<CacheKey, ImageView>,
)
    requires
        avatar_outcome(before, id, pic, now, Some(img), after),
        avatar_outcome(after, id, pic2, now2, r2, after2),
        !expired_at(img, now2),
    ensures
        r2 == Some(touched(img, now2)),
        after2 == after.insert(CacheKey::UserAvatar(id), touched(img, now2)),
{
}

// ---------------------------------------------------------------------
// Screen state
// ---------------------------------------------------------------------

/// Each conversation keeps its own draft: a draft typed for `t` is shown
/// again after another conversation was opened and its draft changed, and
/// `t` opened again.
pub proof fn law_drafts_are_per_conversation(
    o: ChatState,
    t: ChatTarget,
    v: Seq<char>,
    a: ChatState,
    t2: ChatTarget,
    w: Seq<char>,
    b: ChatState,
)
    requires
        o.current_chat_target == Some(t),
        forall|u: ChatTarget| #[trigger] draft_of(a.chat_input_drafts@, u)
            == if u == t { v } else { draft_of(o.chat_input_drafts@, u) },
        t2 != t,
        forall|u: ChatTarget| #[trigger] draft_of(b.chat_input_drafts@, u)
            == if u == t2 { w } else { draft_of(a.chat_input_drafts@, u) },
    ensures
        current_draft(ChatState { current_chat_target: Some(t), ..b }) == v,
        current_draft(ChatState { current_chat_target: Some(t2), ..b }) == w,
{
    assert(draft_of(b.chat_input_drafts@, t) == draft_of(a.chat_input_drafts@, t));
    assert(draft_of(b.chat_input_drafts@, t2) == w);
}

/// The arrows over the grid of emoji suggestions (four columns, five rows
/// a page), as `handle_message_input` takes them (`message_key`, its
/// contract): with emoji suggestions and
/// no mention suggestions, the selection stays within the list, and the
/// suggestions, the scroll position and the drafts (so the text being
/// typed) are left as they were.
pub proof fn law_message_input_emoji_grid(o: App, n: App, key: KeyEvent)
    requires
        message_key(o, n, key),
        o.chat.mention_suggestions@.len() == 0,
        o.chat.emoji_selected < o.chat.emoji_suggestions@.len(),
        key.code is Up || key.code is Down || key.code is Left || key.code is Right,
    ensures
        n.chat.emoji_selected < o.chat.emoji_suggestions@.len(),
        n.chat.emoji_suggestions == o.chat.emoji_suggestions,
        n.chat.mention_suggestions == o.chat.mention_suggestions,
        n.chat.chat_scroll_offset == o.chat.chat_scroll_offset,
        n.chat.chat_input_drafts == o.chat.chat_input_drafts,
        n.chat.current_chat_target == o.chat.current_chat_target,
        current_draft(n.chat) == current_draft(o.chat),
{
}

/// The same on the chat screen (`chat_key`, the contract of
/// `handle_chat_input`): with no popup shown and the message input
/// focused, the arrows keep the emoji selection within the suggestions
/// and leave the suggestions, the scroll position and the text being
/// typed as they were.
pub proof fn law_emoji_grid_stays_in_list(o: App, n: App, key: KeyEvent)
    requires
        chat_key(o, n, key),
        !chat_popup_shown(o),
        o.chat.chat_focus == ChatFocus::Messages,
        o.chat.mention_suggestions@.len() == 0,
        o.chat.emoji_selected < o.chat.emoji_suggestions@.len(),
        key.code is Up || key.code is Down || key.code is Left || key.code is Right,
    ensures
        n.chat.emoji_selected < o.chat.emoji_suggestions@.len(),
        n.chat.emoji_suggestions == o.chat.emoji_suggestions,
        n.chat.mention_suggestions == o.chat.mention_suggestions,
        n.chat.chat_scroll_offset == o.chat.chat_scroll_offset,
        n.chat.chat_input_drafts == o.chat.chat_input_drafts,
        current_draft(n.chat) == current_draft(o.chat),
{
    law_message_input_emoji_grid(o, n, key);
}

/// Nothing the preferences silence reaches the front end: with sound
/// effects off no sound is handed on, with desktop notifications off no
/// desktop notification, and every other effect is handed on.
pub proof fn law_preferences_filter_effects(s: Seq<Effect>, p: GlobalPrefs)
    ensures
        !p.sound_effects_enabled ==> forall|i: int| 0 <= i < allowed_effects(s, p).len()
            ==> !(#[trigger] allowed_effects(s, p)[i] is Play),
        !p.desktop_notifications_enabled ==> forall|i: int| 0 <= i < allowed_effects(s, p).len()
            ==> !(#[trigger] allowed_effects(s, p)[i] is Desktop),
        p.sound_effects_enabled && p.desktop_notifications_enabled ==> allowed_effects(s, p) == s,
    decreases s.len(),
{
    if s.len() > 0 {
        law_preferences_filter_effects(s.drop_last(), p);
        if p.sound_effects_enabled && p.desktop_notifications_enabled {
            assert(s.drop_last().push(s.last()) =~= s);
        }
    }
}

/// The preferences read back are those loaded: an empty cell cannot be
/// read (`global_prefs` and `global_prefs_mut` require a filled cell);
/// once it is filled it can, and reading gives the loaded preferences;
/// filling it again changes nothing.
pub proof fn law_prefs_read_after_init(
    empty: GlobalPrefsCell,
    loaded: GlobalPrefs,
    filled: GlobalPrefsCell,
    again: GlobalPrefs,
    refilled: GlobalPrefsCell,
)
    requires
        empty.value is None,
        prefs_filled(empty, loaded, filled),
        prefs_filled(filled, again, refilled),
    ensures
        !prefs_readable(empty),
        prefs_readable(filled),
        filled.value->0 == loaded,
        refilled == filled,
        prefs_readable(refilled) && refilled.value->0 == loaded,
{
}

/// Moving one row down and then one row up, or up and then down, in a
/// list of `n` rows comes back to the same row.
pub proof fn law_next_prev_inverse(a: int, n: int)
    requires
        0 <= a < n,
    ensures
        ((a + 1) % n + n - 1) % n == a,
        ((a + n - 1) % n + 1) % n == a,
{
    if a + 1 < n {
        vstd::arithmetic::div_mod::lemma_small_mod((a + 1) as nat, n as nat);
    } else {
        vstd::arithmetic::div_mod::lemma_mod_self_0(n);
    }
    vstd::arithmetic::div_mod::lemma_mod_add_multiples_vanish(a, n);
    vstd::arithmetic::div_mod::lemma_small_mod(a as nat, n as nat);
    if a > 0 {
        vstd::arithmetic::div_mod::lemma_mod_add_multiples_vanish(a - 1, n);
        vstd::arithmetic::div_mod::lemma_small_mod((a - 1) as nat, n as nat);
    } else {
        vstd::arithmetic::div_mod::lemma_small_mod((n - 1) as nat, n as nat);
        vstd::arithmetic::div_mod::lemma_mod_self_0(n);
    }
}

/// A notification shown at tick `t` for `d` ticks closes from tick `t + d`
/// on and not before; one shown without a duration never closes by itself.
pub proof fn law_notification_closes_on_time(t: u64, d: u64, u: u64)
    requires
        t + d <= u64::MAX,
    ensures
        close_tick(t, Some(d)) matches Some(c) && (u >= c <==> u >= t + d),
        close_tick(t, None) is None,
{
}

proof fn lemma_first_position(names: Seq<Seq<char>>, i: int)
    requires
        0 <= i < names.len(),
        forall|j: int| 0 <= j < i ==> !eq_ignore_ascii_case_spec(#[trigger] names[j], names[i]),
    ensures
        position_ignoring_case(names, names[i]) == Some(i),
    decreases i,
{
    if i > 0 {
        let t = names.drop_first();
        assert forall|j: int| 0 <= j < i - 1 implies !eq_ignore_ascii_case_spec(#[trigger] t[j], t[i - 1]) by {
            assert(t[j] == names[j + 1]);
        }
        lemma_first_position(t, i - 1);
        assert(!eq_ignore_ascii_case_spec(names[0], names[i]));
    }
}

proof fn lemma_backgrounds_distinct(j: int, i: int)
    requires
        0 <= j < i < 13,
    ensures
        !eq_ignore_ascii_case_spec(background_names()[j], background_names()[i]),
{
    reveal_strlit("Minimal");
    reveal_strlit("Cyberpunk");
    reveal_strlit("CyberGrid");
    reveal_strlit("FractalGrid");
    reveal_strlit("Geometry");
    reveal_strlit("Geometry2");
    reveal_strlit("HackerGlyphs");
    reveal_strlit("MatrixRain");
    reveal_strlit("NeonTunnel");
    reveal_strlit("PlasmaWave");
    reveal_strlit("PulseCircuit");
    reveal_strlit("WireframeEarth");
    reveal_strlit("None");
    let a = background_names()[j];
    let b = background_names()[i];
    if j == 1 && i == 2 {
        assert(ascii_lower(a[5]) != ascii_lower(b[5]));
    } else if a.len() == b.len() {
        assert(ascii_lower(a[0]) != ascii_lower(b[0]));
    }
}

/// Choosing a theme or a background by the name it shows selects it
/// again: no two names are equal ignoring ASCII case.
pub proof fn law_names_select_themselves(i: int)
    ensures
        0 <= i < 2 ==> position_ignoring_case(theme_names(), theme_names()[i]) == Some(i),
        0 <= i < 13 ==> position_ignoring_case(background_names(), background_names()[i]) == Some(i),
{
    reveal_strlit("Cyberpunk");
    reveal_strlit("Minimal");
    if 0 <= i < 2 {
        if i == 1 {
            assert(theme_names()[0].len() != theme_names()[1].len());
        }
        lemma_first_position(theme_names(), i);
    }
    if 0 <= i < 13 {
        assert forall|j: int| 0 <= j < i implies !eq_ignore_ascii_case_spec(
            #[trigger] background_names()[j], background_names()[i]) by {
            lemma_backgrounds_distinct(j, i);
        }
        lemma_first_position(background_names(), i);
    }
}

/// Masking an avatar twice is masking it once.
pub proof fn law_mask_idempotent(data: Seq<u8>, w: int, h: int)
    ensures
        masked(masked(data, w, h), w, h) == masked(data, w, h),
{
    assert(masked(masked(data, w, h), w, h) =~= masked(data, w, h));
}

// ---------------------------------------------------------------------
// The direct-message list
// ---------------------------------------------------------------------

proof fn lemma_dm_key_order(c: ChatState, a: int, b: int, d: int)
    ensures
        !dm_key_lt(c, a, a),
        dm_key_lt(c, a, b) && dm_key_lt(c, b, d) ==> dm_key_lt(c, a, d),
{
    let na = c.dm_user_list@[a].username@;
    let nb = c.dm_user_list@[b].username@;
    let nd = c.dm_user_list@[d].username@;
    lemma_lex_irreflexive(na);
    if lex_lt(na, nb) && lex_lt(nb, nd) {
        lemma_lex_transitive(na, nb, nd);
    }
}

/// No position of `s` is shown before one that comes earlier in `s`.
pub open spec fn dm_sorted(c: ChatState, s: Seq<int>) -> bool {
    forall|i: int, j: int| 0 <= i < j < s.len() ==> !dm_key_lt(c, #[trigger] s[j], #[trigger] s[i])
}

proof fn lemma_insert_by_key_sorted(c: ChatState, x: int, s: Seq<int>)
    requires
        dm_sorted(c, s),
    ensures
        dm_sorted(c, insert_by_key(c, x, s)),
        insert_by_key(c, x, s).len() == s.len() + 1,
        forall|y: int| #[trigger] insert_by_key(c, x, s).contains(y) <==> (y == x || s.contains(y)),
    decreases s.len(),
{
    let r = insert_by_key(c, x, s);
    if s.len() == 0 {
        assert forall|y: int| #[trigger] r.contains(y) <==> (y == x || s.contains(y)) by {
            if y == x {
                assert(r[0] == x);
            }
        }
    } else if dm_key_lt(c, x, s[0]) {
        assert forall|i: int, j: int| 0 <= i < j < r.len() implies !dm_key_lt(c, #[trigger] r[j], #[trigger] r[i]) by {
            if i == 0 {
                assert(r[j] == s[j - 1]);
                lemma_dm_key_order(c, s[j - 1], x, s[0]);
                lemma_dm_key_order(c, s[0], x, s[0]);
                if j - 1 > 0 {
                    assert(!dm_key_lt(c, s[j - 1], s[0]));
                }
            } else {
                assert(r[i] == s[i - 1] && r[j] == s[j - 1]);
            }
        }
        assert forall|y: int| #[trigger] r.contains(y) <==> (y == x || s.contains(y)) by {
            if r.contains(y) {
                let k = choose|k: int| 0 <= k < r.len() && r[k] == y;
                if k > 0 {
                    assert(s[k - 1] == y);
                }
            }
            if y == x {
                assert(r[0] == y);
            }
            if s.contains(y) {
                let k = choose|k: int| 0 <= k < s.len() && s[k] == y;
                assert(r[k + 1] == y);
            }
        }
    } else {
        let t = s.drop_first();
        assert(dm_sorted(c, t)) by {
            assert forall|i: int, j: int| 0 <= i < j < t.len() implies !dm_key_lt(c, #[trigger] t[j], #[trigger] t[i]) by {
                assert(t[i] == s[i + 1] && t[j] == s[j + 1]);
            }
        }
        lemma_insert_by_key_sorted(c, x, t);
        let q = insert_by_key(c, x, t);
        assert(r == seq![s[0]] + q);
        assert forall|i: int, j: int| 0 <= i < j < r.len() implies !dm_key_lt(c, #[trigger] r[j], #[trigger] r[i]) by {
            if i == 0 {
                assert(r[j] == q[j - 1]);
                assert(q.contains(q[j - 1]));
                if q[j - 1] != x {
                    assert(t.contains(q[j - 1]));
                    let k = choose|k: int| 0 <= k < t.len() && t[k] == q[j - 1];
                    assert(t[k] == s[k + 1]);
                    assert(!dm_key_lt(c, s[k + 1], s[0]));
                }
            } else {
                assert(r[i] == q[i - 1] && r[j] == q[j - 1]);
            }
        }
        assert forall|y: int| #[trigger] r.contains(y) <==> (y == x || s.contains(y)) by {
            if r.contains(y) {
                let k = choose|k: int| 0 <= k < r.len() && r[k] == y;
                if k > 0 {
                    assert(q[k - 1] == y);
                    assert(q.contains(y));
                    if y != x {
                        assert(t.contains(y));
                        let m = choose|m: int| 0 <= m < t.len() && t[m] == y;
                        assert(s[m + 1] == y);
                    }
                }
            }
            if y == x {
                assert(q.contains(y));
                let k = choose|k: int| 0 <= k < q.len() && q[k] == y;
                assert(r[k + 1] == y);
            }
            if s.contains(y) {
                let k = choose|k: int| 0 <= k < s.len() && s[k] == y;
                if k == 0 {
                    assert(r[0] == y);
                } else {
                    assert(t[k - 1] == y);
                    assert(t.contains(y));
                    assert(q.contains(y));
                    let m = choose|m: int| 0 <= m < q.len() && q[m] == y;
                    assert(r[m + 1] == y);
                }
            }
        }
    }
}

proof fn lemma_dm_order_upto(c: ChatState, k: int)
    requires
        0 <= k,
    ensures
        dm_sorted(c, dm_order_upto(c, k)),
        dm_order_upto(c, k).len() == k,
        forall|p: int| #[trigger] dm_order_upto(c, k).contains(p) <==> 0 <= p < k,
    decreases k,
{
    if k > 0 {
        lemma_dm_order_upto(c, k - 1);
        lemma_insert_by_key_sorted(c, k - 1, dm_order_upto(c, k - 1));
    } else {
        assert forall|p: int| #[trigger] dm_order_upto(c, k).contains(p) <==> 0 <= p < k by {
            assert(dm_order_upto(c, k) =~= Seq::<int>::empty());
        }
    }
}

/// The direct-message list is shown with every user once, conversations
/// with unread messages first, and by name within each group.
pub proof fn law_dm_list_order(c: ChatState, p: int)
    ensures
        dm_sorted(c, dm_order(c)),
        dm_order(c).len() == c.dm_user_list@.len(),
        dm_order(c).contains(p) <==> 0 <= p < c.dm_user_list@.len(),
{
    lemma_dm_order_upto(c, c.dm_user_list@.len() as int);
}

// ---------------------------------------------------------------------
// The channel's user list
// ---------------------------------------------------------------------

/// The users are in descending order of their lower-case names.
pub open spec fn descending_by_name(s: Seq<User>) -> bool {
    forall|i: int, j: int| 0 <= i < j < s.len() ==> lex_le(user_key(#[trigger] s[j]), user_key(#[trigger] s[i]))
}

proof fn lemma_insert_desc_sorted(x: User, s: Seq<User>)
    requires
        descending_by_name(s),
    ensures
        descending_by_name(insert_desc(x, s)),
        insert_desc(x, s).len() == s.len() + 1,
        forall|y: User| #[trigger] insert_desc(x, s).contains(y) <==> (y == x || s.contains(y)),
    decreases s.len(),
{
    let r = insert_desc(x, s);
    if s.len() == 0 {
        assert forall|y: User| #[trigger] r.contains(y) <==> (y == x || s.contains(y)) by {
            if y == x {
                assert(r[0] == x);
            }
        }
    } else if lex_le(user_key(s[0]), user_key(x)) {
        assert forall|i: int, j: int| 0 <= i < j < r.len() implies lex_le(user_key(#[trigger] r[j]), user_key(#[trigger] r[i])) by {
            if i == 0 {
                assert(r[j] == s[j - 1]);
                if j - 1 > 0 {
                    assert(lex_le(user_key(s[j - 1]), user_key(s[0])));
                    lemma_lex_le_transitive(user_key(s[j - 1]), user_key(s[0]), user_key(x));
                }
            } else {
                assert(r[i] == s[i - 1] && r[j] == s[j - 1]);
            }
        }
        assert forall|y: User| #[trigger] r.contains(y) <==> (y == x || s.contains(y)) by {
            if r.contains(y) {
                let k = choose|k: int| 0 <= k < r.len() && r[k] == y;
                if k > 0 {
                    assert(s[k - 1] == y);
                }
            }
            if y == x {
                assert(r[0] == y);
            }
            if s.contains(y) {
                let k = choose|k: int| 0 <= k < s.len() && s[k] == y;
                assert(r[k + 1] == y);
            }
        }
    } else {
        let t = s.drop_first();
        assert(descending_by_name(t)) by {
            assert forall|i: int, j: int| 0 <= i < j < t.len() implies lex_le(user_key(#[trigger] t[j]), user_key(#[trigger] t[i])) by {
                assert(t[i] == s[i + 1] && t[j] == s[j + 1]);
            }
        }
        lemma_insert_desc_sorted(x, t);
        let q = insert_desc(x, t);
        assert(r == seq![s[0]] + q);
        lemma_not_le_flips(user_key(s[0]), user_key(x));
        assert forall|i: int, j: int| 0 <= i < j < r.len() implies lex_le(user_key(#[trigger] r[j]), user_key(#[trigger] r[i])) by {
            if i == 0 {
                assert(r[j] == q[j - 1]);
                assert(q.contains(q[j - 1]));
                if q[j - 1] != x {
                    assert(t.contains(q[j - 1]));
                    let k = choose|k: int| 0 <= k < t.len() && t[k] == q[j - 1];
                    assert(t[k] == s[k + 1]);
                    assert(lex_le(user_key(s[k + 1]), user_key(s[0])));
                }
            } else {
                assert(r[i] == q[i - 1] && r[j] == q[j - 1]);
            }
        }
        assert forall|y: User| #[trigger] r.contains(y) <==> (y == x || s.contains(y)) by {
            if r.contains(y) {
                let k = choose|k: int| 0 <= k < r.len() && r[k] == y;
                if k > 0 {
                    assert(q[k - 1] == y);
                    assert(q.contains(y));
                    if y != x {
                        assert(t.contains(y));
                        let m = choose|m: int| 0 <= m < t.len() && t[m] == y;
                        assert(s[m + 1] == y);
                    }
                }
            }
            if y == x {
                assert(q.contains(y));
                let k = choose|k: int| 0 <= k < q.len() && q[k] == y;
                assert(r[k + 1] == y);
            }
            if s.contains(y) {
                let k = choose|k: int| 0 <= k < s.len() && s[k] == y;
                if k == 0 {
                    assert(r[0] == y);
                } else {
                    assert(t[k - 1] == y);
                    assert(t.contains(y));
                    assert(q.contains(y));
                    let m = choose|m: int| 0 <= m < q.len() && q[m] == y;
                    assert(r[m + 1] == y);
                }
            }
        }
    }
}

/// The channel's user list is shown in descending order of lower-case
/// names, with exactly the users that arrived, as many as arrived.
pub proof fn law_channel_users_order(users: Seq<User>)
    ensures
        descending_by_name(sort_users_desc(users)),
        sort_users_desc(users).len() == users.len(),
        forall|y: User| #[trigger] sort_users_desc(users).contains(y) <==> users.contains(y),
    decreases users.len(),
{
    if users.len() > 0 {
        let t = users.drop_last();
        law_channel_users_order(t);
        lemma_insert_desc_sorted(users.last(), sort_users_desc(t));
        assert forall|y: User| #[trigger] sort_users_desc(users).contains(y) <==> users.contains(y) by {
            if t.contains(y) {
                let k = choose|k: int| 0 <= k < t.len() && t[k] == y;
                assert(users[k] == y);
            }
            if users.contains(y) && y != users.last() {
                let k = choose|k: int| 0 <= k < users.len() && users[k] == y;
                assert(t[k] == y);
            }
            if y == users.last() {
                assert(users[users.len() - 1] == y);
            }
        }
    }
}

// ---------------------------------------------------------------------
// Notification previews
// ---------------------------------------------------------------------

/// A preview is at most 100 bytes long in UTF-8, and a text that fits is
/// previewed unchanged.
pub proof fn law_preview_fits(s: Seq<char>)
    requires
        preview_ok(s),
    ensures
        encode_utf8(preview_text(s)).len() <= 100,
        encode_utf8(s).len() <= 100 ==> preview_text(s) == s,
{
    if encode_utf8(s).len() > 100 {
        let k = choose|k: int| 0 <= k <= s.len() && #[trigger] byte_offset(s, k) == 97;
        reveal_strlit("...");
        lemma_encode_utf8_concat(s.take(k), "..."@);
        let dots = "..."@;
        assert(encode_utf8(dots).len() == 3) by {
            vstd::utf8::is_ascii_chars_encode_utf8(dots);
        }
    }
}

// ---------------------------------------------------------------------
// Forum posts
// ---------------------------------------------------------------------

/// After the selection moves in a thread with posts, the selected post is
/// one of the thread's posts and lies among the five posts shown from the
/// scroll offset on (a selection moved up must not have been past the end
/// of the thread).
pub proof fn law_selected_post_stays_visible(o: ForumState, n: ForumState, direction: i32)
    requires
        ForumState::post_selection_moved(o, n, direction),
        o.current_posts() is Some,
        o.current_posts()->0.len() > 0,
        direction > 0 || match o.selected_post_index {
            Some(c) => c <= o.current_posts()->0.len(),
            None => true,
        },
    ensures
        n.selected_post_index matches Some(k) && k < o.current_posts()->0.len()
            && n.scroll_offset <= k < n.scroll_offset + 5,
{
    let fi = o.current_forum_pos()->0;
    let ti = find_thread(o.forums@[fi].threads@, o.current_thread_id->0)->0;
    let posts = o.forums@[fi].threads@[ti].posts;
    assert(posts.len() == posts@.len());
    let p = o.current_posts()->0;
    assert(p == posts@);
    assert(p.len() <= usize::MAX);
    let cur = match o.selected_post_index { Some(c) => c as int, None => 0 };
    let k = if direction > 0 {
        if cur + 1 <= p.len() - 1 { cur + 1 } else { p.len() - 1 }
    } else {
        if cur >= 1 { cur - 1 } else { 0 }
    };
    assert(0 <= k < p.len());
}

// ---------------------------------------------------------------------
// Scrolling the chat
// ---------------------------------------------------------------------

proof fn lemma_scroll_fits(c: ChatState)
    ensures
        0 <= max_scroll(c) <= usize::MAX,
{
    assert(c.chat_messages.len() == c.chat_messages@.len());
    assert(c.dm_messages.len() == c.dm_messages@.len());
}

/// Paging up never scrolls past the oldest message; paging up and then
/// down comes back to the same place when a whole page lay above it.
pub proof fn law_page_up_then_down(o: App, m: App, n: App)
    requires
        o.chat.current_chat_target is Some,
        scrolled_up(o, m),
        scrolled_down(m, n),
    ensures
        m.chat.chat_scroll_offset <= max_scroll(o.chat),
        o.chat.chat_scroll_offset + rows_shown(o.chat) <= max_scroll(o.chat)
            ==> m.chat.chat_scroll_offset == o.chat.chat_scroll_offset + rows_shown(o.chat)
                && n.chat.chat_scroll_offset == o.chat.chat_scroll_offset,
{
    lemma_scroll_fits(o.chat);
}

// ---------------------------------------------------------------------
// Typing into the login form
// ---------------------------------------------------------------------

/// On the login and register screens, typing a character and then
/// backspace leaves both fields as they were, and nothing else changes.
pub proof fn law_type_then_backspace(o: App, m: App, n: App, c: char, k1: KeyEvent, k2: KeyEvent)
    requires
        k1.code == KeyCode::Char(c),
        k2.code == KeyCode::Backspace,
        auth_key(o, m, k1),
        auth_key(m, n, k2),
    ensures
        n.auth.current_input@ == o.auth.current_input@,
        n.auth.password_input@ == o.auth.password_input@,
        n == (App {
            auth: AuthState { current_input: n.auth.current_input, password_input: n.auth.password_input, ..o.auth },
            ..o
        }),
{
    assert(o.auth.current_input@.push(c).drop_last() =~= o.auth.current_input@);
    assert(o.auth.password_input@.push(c).drop_last() =~= o.auth.password_input@);
}

// ---------------------------------------------------------------------
// Eviction order and history prefetch
// ---------------------------------------------------------------------

/// Storing an image evicts least recently used images first: an image that
/// was evicted had been accessed no later than any image that stayed.
pub proof fn law_cache_evicts_least_recent(
    before: Map<CacheKey, ImageView>,
    before_count: usize,
    config: ImageCacheConfig,
    k: CacheKey,
    img: ImageView,
    after: Map<CacheKey, ImageView>,
    after_count: usize,
    gone: CacheKey,
    stay: CacheKey,
)
    requires
        exists|evicted: Seq<CacheKey>|
            #[trigger] put_outcome(before, before_count, config, k, img, after, after_count, evicted),
        before.contains_key(gone),
        !after.contains_key(gone),
        before.contains_key(stay),
        after.contains_key(stay),
        stay != k,
    ensures
        before[gone].last_accessed <= before[stay].last_accessed,
{
    let evicted = choose|evicted: Seq<CacheKey>|
        #[trigger] put_outcome(before, before_count, config, k, img, after, after_count, evicted);
    let kept = kept_after(before, evicted, evicted.len() as int);
    let ev = evicted.take(evicted.len() as int);
    assert(ev =~= evicted);
    assert(kept.contains_key(stay));
    assert(!kept.contains_key(gone));
    assert(ev.to_set().contains(gone));
    let i = choose|i: int| 0 <= i < ev.len() && ev[i] == gone;
    assert(!ev.contains(stay));
    assert(!evicted.take(i).contains(stay)) by {
        if evicted.take(i).contains(stay) {
            let j = choose|j: int| 0 <= j < i && evicted.take(i)[j] == stay;
            assert(ev[j] == stay);
        }
    }
    assert(kept_after(before, evicted, i).contains_key(stay));
}

/// Once scrolling reaches the zone where older messages are asked for,
/// scrolling further up keeps asking for them.
pub proof fn law_fetch_monotone(total: nat, offset: nat, further: nat, max_rows: nat, threshold: nat, complete: bool)
    requires
        wants_more_history(total, offset, max_rows, threshold, complete),
        offset <= further,
    ensures
        wants_more_history(total, further, max_rows, threshold, complete),
{
}

// ---------------------------------------------------------------------
// The byte count of the image cache
// ---------------------------------------------------------------------

/// The keys of `all` that `ev` does not hold, in order.
pub open spec fn keys_without(all: Seq<CacheKey>, ev: Seq<CacheKey>) -> Seq<CacheKey>
    decreases all.len(),
{
    if all.len() == 0 {
        all
    } else if ev.contains(all.last()) {
        keys_without(all.drop_last(), ev)
    } else {
        keys_without(all.drop_last(), ev).push(all.last())
    }
}

proof fn lemma_contains_drop_last(s: Seq<CacheKey>, q: CacheKey)
    requires
        s.len() > 0,
    ensures
        s.contains(q) <==> s.drop_last().contains(q) || q == s.last(),
{
    if s.contains(q) && q != s.last() {
        let i = choose|i: int| 0 <= i < s.len() && s[i] == q;
        assert(s.drop_last()[i] == q);
    }
    if s.drop_last().contains(q) {
        let i = choose|i: int| 0 <= i < s.drop_last().len() && s.drop_last()[i] == q;
        assert(s[i] == q);
    }
    if q == s.last() {
        assert(s[s.len() - 1] == q);
    }
}

proof fn lemma_keys_without(all: Seq<CacheKey>, ev: Seq<CacheKey>)
    ensures
        forall|q: CacheKey| keys_without(all, ev).contains(q) <==> all.contains(q) && !ev.contains(q),
        all.no_duplicates() ==> keys_without(all, ev).no_duplicates(),
    decreases all.len(),
{
    if all.len() > 0 {
        let a2 = all.drop_last();
        let x = all.last();
        lemma_keys_without(a2, ev);
        let r2 = keys_without(a2, ev);
        assert forall|q: CacheKey| all.contains(q) <==> a2.contains(q) || q == x by {
            lemma_contains_drop_last(all, q);
        }
        if !ev.contains(x) {
            let r = r2.push(x);
            assert forall|q: CacheKey| r.contains(q) <==> r2.contains(q) || q == x by {
                lemma_contains_drop_last(r, q);
                assert(r.drop_last() =~= r2);
            }
            if all.no_duplicates() {
                assert(a2.no_duplicates());
                assert(!a2.contains(x)) by {
                    if a2.contains(x) {
                        let i = choose|i: int| 0 <= i < a2.len() && a2[i] == x;
                        assert(all[i] == all[all.len() - 1]);
                    }
                }
                assert forall|i: int, j: int| 0 <= i < j < r.len() implies r[i] != r[j] by {
                    if j == r.len() - 1 {
                        assert(r2.contains(r[i]));
                    }
                }
            }
        }
    }
}

proof fn lemma_keys_without_same(s: Seq<CacheKey>, e1: Seq<CacheKey>, e2: Seq<CacheKey>)
    requires
        forall|i: int| 0 <= i < s.len() ==> (e1.contains(#[trigger] s[i]) <==> e2.contains(s[i])),
    ensures
        keys_without(s, e1) == keys_without(s, e2),
    decreases s.len(),
{
    if s.len() > 0 {
        assert(s.last() == s[s.len() - 1]);
        lemma_keys_without_same(s.drop_last(), e1, e2);
    }
}

proof fn lemma_size_remove(m: Map<CacheKey, ImageView>, s: Seq<CacheKey>, i: int)
    requires
        0 <= i < s.len(),
    ensures
        evicted_size(m, s) == evicted_size(m, s.remove(i)) + m[s[i]].size_bytes,
    decreases s.len(),
{
    if i < s.len() - 1 {
        lemma_size_remove(m, s.drop_last(), i);
        assert(s.remove(i).drop_last() =~= s.drop_last().remove(i));
        assert(s.remove(i).last() == s.last());
    } else {
        assert(s.remove(i) =~= s.drop_last());
    }
}

proof fn lemma_size_agree(m1: Map<CacheKey, ImageView>, m2: Map<CacheKey, ImageView>, s: Seq<CacheKey>)
    requires
        forall|i: int| 0 <= i < s.len() ==> m1[#[trigger] s[i]] == m2[s[i]],
    ensures
        evicted_size(m1, s) == evicted_size(m2, s),
    decreases s.len(),
{
    if s.len() > 0 {
        assert(s.last() == s[s.len() - 1]);
        lemma_size_agree(m1, m2, s.drop_last());
    }
}

proof fn lemma_size_split(m: Map<CacheKey, ImageView>, all: Seq<CacheKey>, ev: Seq<CacheKey>)
    requires
        all.no_duplicates(),
        ev.no_duplicates(),
        forall|j: int| 0 <= j < ev.len() ==> all.contains(#[trigger] ev[j]),
    ensures
        evicted_size(m, all) == evicted_size(m, keys_without(all, ev)) + evicted_size(m, ev),
    decreases all.len(),
{
    if all.len() == 0 {
        if ev.len() > 0 {
            assert(all.contains(ev[0]));
        }
    } else {
        let x = all.last();
        let a2 = all.drop_last();
        assert(a2.no_duplicates());
        assert forall|q: CacheKey| all.contains(q) <==> a2.contains(q) || q == x by {
            lemma_contains_drop_last(all, q);
        }
        assert(!a2.contains(x)) by {
            if a2.contains(x) {
                let i = choose|i: int| 0 <= i < a2.len() && a2[i] == x;
                assert(all[i] == all[all.len() - 1]);
            }
        }
        if ev.contains(x) {
            let i = choose|i: int| 0 <= i < ev.len() && ev[i] == x;
            let ev2 = ev.remove(i);
            lemma_size_remove(m, ev, i);
            assert forall|a: int, b: int| 0 <= a < b < ev2.len() implies ev2[a] != ev2[b] by {
                let a1 = if a < i { a } else { a + 1 };
                let b1 = if b < i { b } else { b + 1 };
                assert(ev2[a] == ev[a1] && ev2[b] == ev[b1]);
            }
            assert forall|j: int| 0 <= j < ev2.len() implies a2.contains(#[trigger] ev2[j]) by {
                let j1 = if j < i { j } else { j + 1 };
                assert(ev2[j] == ev[j1]);
                assert(all.contains(ev[j1]));
                assert(ev[j1] != x);
            }
            lemma_size_split(m, a2, ev2);
            assert forall|t: int| 0 <= t < a2.len() implies (ev.contains(#[trigger] a2[t]) <==> ev2.contains(a2[t])) by {
                let q = a2[t];
                assert(a2.contains(q));
                assert(q != x);
                if ev.contains(q) {
                    let j = choose|j: int| 0 <= j < ev.len() && ev[j] == q;
                    assert(j != i);
                    let j2 = if j < i { j } else { j - 1 };
                    assert(ev2[j2] == q);
                }
                if ev2.contains(q) {
                    let j = choose|j: int| 0 <= j < ev2.len() && ev2[j] == q;
                    let j1 = if j < i { j } else { j + 1 };
                    assert(ev[j1] == q);
                }
            }
            lemma_keys_without_same(a2, ev, ev2);
        } else {
            assert forall|j: int| 0 <= j < ev.len() implies a2.contains(#[trigger] ev[j]) by {
                assert(all.contains(ev[j]));
                assert(ev[j] != x);
            }
            lemma_size_split(m, a2, ev);
            assert(keys_without(all, ev).drop_last() =~= keys_without(a2, ev));
        }
    }
}

/// The byte count stays the sum of the sizes of the images held: when it
/// was that sum before storing a new key, and no sum passes the largest
/// count, storing keeps it so; the evicted sizes are taken off exactly
/// and the new size is added.
pub proof fn law_cache_count_tracks_sizes(
    before: Map<CacheKey, ImageView>,
    before_count: usize,
    config: ImageCacheConfig,
    k: CacheKey,
    img: ImageView,
    after: Map<CacheKey, ImageView>,
    after_count: usize,
    evicted: Seq<CacheKey>,
    all: Seq<CacheKey>,
)
    requires
        put_outcome(before, before_count, config, k, img, after, after_count, evicted),
        lists_keys(before, all),
        before_count == evicted_size(before, all),
        !before.contains_key(k),
        evicted_size(before, all) + img.size_bytes <= usize::MAX,
    ensures
        lists_keys(after, keys_without(all, evicted).push(k)),
        after_count == evicted_size(after, keys_without(all, evicted).push(k)),
{
    let n = evicted.len() as int;
    let rest0 = keys_without(all, evicted);
    let rest = rest0.push(k);
    let kept = kept_after(before, evicted, n);
    assert(evicted.take(n) =~= evicted);
    lemma_keys_without(all, evicted);
    assert forall|j: int| 0 <= j < evicted.len() implies all.contains(#[trigger] evicted[j]) by {
        assert(before.contains_key(evicted[j]));
    }
    lemma_size_split(before, all, evicted);
    assert forall|q: CacheKey| kept.contains_key(q) <==> before.contains_key(q) && !evicted.contains(q) by {
        assert(evicted.to_set().contains(q) <==> evicted.contains(q));
    }
    assert(rest.drop_last() =~= rest0);
    assert forall|q: CacheKey| rest.contains(q) <==> rest0.contains(q) || q == k by {
        lemma_contains_drop_last(rest, q);
    }
    assert(rest0.contains(k) <==> all.contains(k) && !evicted.contains(k));
    assert(all.contains(k) <==> before.contains_key(k));
    assert(!rest0.contains(k));
    assert forall|i: int, j: int| 0 <= i < j < rest.len() implies rest[i] != rest[j] by {
        if j == rest.len() - 1 {
            assert(rest0.contains(rest[i]));
        }
    }
    assert forall|q: CacheKey| rest.contains(q) <==> after.contains_key(q) by {
        assert(rest0.contains(q) <==> all.contains(q) && !evicted.contains(q));
        assert(all.contains(q) <==> before.contains_key(q));
        assert(kept.contains_key(q) <==> before.contains_key(q) && !evicted.contains(q));
        assert(after.contains_key(q) <==> kept.contains_key(q) || q == k);
    }
    assert forall|i: int| 0 <= i < rest0.len() implies after[#[trigger] rest0[i]] == before[rest0[i]] by {
        assert(rest0.contains(rest0[i]));
    }
    lemma_size_agree(after, before, rest0);
}

/// Storing a new image in a cache whose byte count is the sum of the sizes
/// it holds, with room for at least one image and the image within the
/// size limit: the image is held afterwards (and found at any time before
/// it expires), the cache keeps at most `max_entries` images, the byte
/// count stays the sum of the sizes held and within the size limit (the
/// evictions being those of `put_outcome`, least recently used first).
pub proof fn law_cache_put_new_key(
    before: Map<CacheKey, ImageView>,
    before_count: usize,
    config: ImageCacheConfig,
    k: CacheKey,
    img: ImageView,
    after: Map<CacheKey, ImageView>,
    after_count: usize,
    evicted: Seq<CacheKey>,
    all: Seq<CacheKey>,
    now: u64,
)
    requires
        put_outcome(before, before_count, config, k, img, after, after_count, evicted),
        lists_keys(before, all),
        before_count == evicted_size(before, all),
        !before.contains_key(k),
        evicted_size(before, all) + img.size_bytes <= usize::MAX,
        config.max_entries >= 1,
        img.size_bytes <= config.max_cache_size_mb * 1048576,
    ensures
        after.contains_key(k) && after[k] == img,
        !expired_at(img, now) ==> live_at(after, k, now),
        after.len() <= config.max_entries,
        lists_keys(after, keys_without(all, evicted).push(k)),
        after_count == evicted_size(after, keys_without(all, evicted).push(k)),
        after_count <= config.max_cache_size_mb * 1048576,
{
    law_cache_count_tracks_sizes(before, before_count, config, k, img, after, after_count, evicted, all);
    let rest0 = keys_without(all, evicted);
    let n = evicted.len() as int;
    let kept = kept_after(before, evicted, n);
    assert(all.to_set().finite());
    assert(before.dom() =~= all.to_set());
    assert(before.dom().finite());
    law_cache_put_within_limits(before, before_count, config, k, img, after, after_count);
    if !(after.len() <= config.max_entries && after_count <= config.max_cache_size_mb * 1048576) {
        assert(after.len() == 1);
        lemma_keys_without(all, evicted);
        assert(kept.dom().subset_of(before.dom()));
        vstd::set_lib::lemma_len_subset(kept.dom(), before.dom());
        assert(after.dom() =~= kept.dom().insert(k));
        assert(after.dom().finite());
        assert(after.dom().contains(k));
        assert(rest0.len() == 0) by {
            if rest0.len() > 0 {
                let q = rest0[0];
                assert(rest0.contains(q));
                assert(q != k);
                assert(after.contains_key(q));
                assert(after.dom().contains(q));
                assert(set![k, q].subset_of(after.dom()));
                vstd::set_lib::lemma_len_subset(set![k, q], after.dom());
                assert(set![k, q].len() == 2);
            }
        }
        let rest = rest0.push(k);
        assert(rest.drop_last() =~= rest0);
        assert(evicted_size(after, rest) == evicted_size(after, rest0) + after[k].size_bytes);
    }
}

/// Decoding gives back what was encoded, and only an encoding decodes:
/// the standard Base64 decoding of the padded encoding of `b` is `b`, and
/// a text that decodes to `b` is the encoding of `b`.
pub proof fn law_base64_round_trip(b: Seq<u8>, s: Seq<char>)
    ensures
        base64_decoded(base64_encoding(b)) == Some(b),
        base64_decoded(s) == Some(b) ==> base64_encoding(b) == s,
{
    let e = base64_encoding(b);
    assert(exists|c: Seq<u8>| #[trigger] base64_encoding(c) == e);
    let c = choose|c: Seq<u8>| #[trigger] base64_encoding(c) == e;
    lemma_base64_encoding_injective(c, b);
}

/// In the profile editor, moving the focus forward (tab or down) and then
/// back (back-tab or up), or back and then forward, leaves the editor as it
/// was: the same focus and every field unchanged.
pub proof fn law_profile_focus_there_and_back(
    a: App,
    b: App,
    c: App,
    k1: KeyEvent,
    k2: KeyEvent,
    pic: Option<Seq<u8>>,
    banner: Option<Seq<u8>>,
)
    requires
        profile_edit_key(a, b, k1, pic, banner),
        profile_edit_key(b, c, k2, pic, banner),
        ((k1.code is Tab || k1.code is Down) && (k2.code is BackTab || k2.code is Up))
            || ((k1.code is BackTab || k1.code is Up) && (k2.code is Tab || k2.code is Down)),
    ensures
        c == a,
{
}

/// The focus after `n` moves forward.
pub open spec fn focus_forward(f: ProfileEditFocus, n: nat) -> ProfileEditFocus
    decreases n,
{
    if n == 0 { f } else { next_focus(focus_forward(f, (n - 1) as nat)) }
}

/// The eleven places of the profile editor form one cycle: eleven moves
/// forward (tab or down) come back to the field they started from, and no
/// fewer do; each move changes only the focus.
pub proof fn law_profile_focus_cycle(apps: Seq<App>, keys: Seq<KeyEvent>, pic: Option<Seq<u8>>, banner: Option<Seq<u8>>)
    requires
        apps.len() == 12,
        keys.len() == 11,
        forall|i: int| 0 <= i < 11 ==> #[trigger] keys[i].code is Tab || keys[i].code is Down,
        forall|i: int| 0 <= i < 11 ==> profile_edit_key(#[trigger] apps[i], apps[i + 1], keys[i], pic, banner),
    ensures
        apps[11] == apps[0],
        forall|i: int| 0 < i < 11 ==> #[trigger] apps[i].profile.profile_edit_focus != apps[0].profile.profile_edit_focus,
{
    assert forall|i: int| 0 <= i <= 11 implies #[trigger] apps[i] == (App {
        profile: ProfileState { profile_edit_focus: focus_forward(apps[0].profile.profile_edit_focus, i as nat), ..apps[0].profile },
        ..apps[0]
    }) by {
        lemma_focus_steps(apps, keys, pic, banner, i);
    }
    let f = apps[0].profile.profile_edit_focus;
    lemma_focus_forward_index(f, 11);
    lemma_focus_index_injective(focus_forward(f, 11), f);
    assert(apps[11] == apps[0]);
    assert forall|i: int| 0 < i < 11 implies #[trigger] apps[i].profile.profile_edit_focus != f by {
        lemma_focus_forward_index(f, i as nat);
        assert(apps[i].profile.profile_edit_focus == focus_forward(f, i as nat));
    }
}

/// The place of a field in the editor's order.
spec fn focus_index(f: ProfileEditFocus) -> int {
    match f {
        ProfileEditFocus::Bio => 0,
        ProfileEditFocus::Location => 1,
        ProfileEditFocus::Url1 => 2,
        ProfileEditFocus::Url2 => 3,
        ProfileEditFocus::Url3 => 4,
        ProfileEditFocus::ProfilePic => 5,
        ProfileEditFocus::ProfilePicDelete => 6,
        ProfileEditFocus::CoverBanner => 7,
        ProfileEditFocus::CoverBannerDelete => 8,
        ProfileEditFocus::Save => 9,
        ProfileEditFocus::Cancel => 10,
    }
}

proof fn lemma_focus_index_injective(a: ProfileEditFocus, b: ProfileEditFocus)
    ensures
        focus_index(a) == focus_index(b) ==> a == b,
{
}

proof fn lemma_focus_forward_index(f: ProfileEditFocus, n: nat)
    ensures
        focus_index(focus_forward(f, n)) == (focus_index(f) + n) % 11,
    decreases n,
{
    if n > 0 {
        lemma_focus_forward_index(f, (n - 1) as nat);
        let g = focus_forward(f, (n - 1) as nat);
        assert(focus_index(next_focus(g)) == (focus_index(g) + 1) % 11);
        assert((focus_index(f) + n - 1) % 11 + 1 == (focus_index(f) + n) % 11
            || ((focus_index(f) + n - 1) % 11 == 10 && (focus_index(f) + n) % 11 == 0)) by (nonlinear_arith)
            requires 0 <= focus_index(f) < 11, n > 0;
    }
}

proof fn lemma_focus_steps(apps: Seq<App>, keys: Seq<KeyEvent>, pic: Option<Seq<u8>>, banner: Option<Seq<u8>>, i: int)
    requires
        apps.len() == 12,
        keys.len() == 11,
        forall|i: int| 0 <= i < 11 ==> #[trigger] keys[i].code is Tab || keys[i].code is Down,
        forall|i: int| 0 <= i < 11 ==> profile_edit_key(#[trigger] apps[i], apps[i + 1], keys[i], pic, banner),
        0 <= i <= 11,
    ensures
        apps[i] == (App {
            profile: ProfileState { profile_edit_focus: focus_forward(apps[0].profile.profile_edit_focus, i as nat), ..apps[0].profile },
            ..apps[0]
        }),
    decreases i,
{
    if i > 0 {
        lemma_focus_steps(apps, keys, pic, banner, i - 1);
        assert(keys[i - 1].code is Tab || keys[i - 1].code is Down);
        assert(profile_edit_key(apps[i - 1], apps[i], keys[i - 1], pic, banner));
    }
}

// ---------------------------------------------------------------------
// What the operations are for
// ---------------------------------------------------------------------

/// A page of a channel's history, for the channel shown, records whether
/// older messages remain: afterwards the channel's history is complete
/// exactly when the server has no more, and the page's messages come before
/// those already shown.
pub proof fn law_channel_page_records_has_more(
    o: App,
    n: App,
    server_id: u128,
    channel_id: u128,
    messages: Vec<ChannelMessage>,
    has_more: bool,
)
    requires
        server_message_outcome(o, n, ServerMessage::ChannelMessagesPaginated { channel_id, messages, has_more }),
        o.chat.current_chat_target == Some(ChatTarget::Channel { server_id, channel_id }),
    ensures
        n.chat.channel_history_complete@.contains_key(channel_id),
        n.chat.channel_history_complete@[channel_id] == !has_more,
        n.chat.chat_messages@.take(messages@.len() as int) == messages@,
        n.chat.chat_messages@.skip(messages@.len() as int) == o.chat.chat_messages@,
{
    let m = messages@;
    if o.chat.chat_messages@.len() == 0 {
        assert(m.skip(m.len() as int) =~= o.chat.chat_messages@);
        assert(m.take(m.len() as int) =~= m);
    } else {
        assert((m + o.chat.chat_messages@).take(m.len() as int) =~= m);
        assert((m + o.chat.chat_messages@).skip(m.len() as int) =~= o.chat.chat_messages@);
    }
}

/// A page of a direct conversation's history, for the conversation shown,
/// records whether older messages remain: afterwards its history is
/// complete exactly when the server has no more, and the page's messages
/// come before those already shown.
pub proof fn law_dm_page_records_has_more(
    o: App,
    n: App,
    user_id: u128,
    messages: Vec<DirectMessage>,
    has_more: bool,
)
    requires
        server_message_outcome(o, n, ServerMessage::DirectMessagesPaginated { user_id, messages, has_more }),
        o.chat.current_chat_target == Some(ChatTarget::DM { user_id }),
    ensures
        n.chat.dm_history_complete == !has_more,
        n.chat.dm_messages@.take(messages@.len() as int) == messages@,
        n.chat.dm_messages@.skip(messages@.len() as int) == o.chat.dm_messages@,
{
    let m = messages@;
    if o.chat.dm_messages@.len() == 0 {
        assert(m.skip(m.len() as int) =~= o.chat.dm_messages@);
        assert(m.take(m.len() as int) =~= m);
    } else {
        assert((m + o.chat.dm_messages@).take(m.len() as int) =~= m);
        assert((m + o.chat.dm_messages@).skip(m.len() as int) =~= o.chat.dm_messages@);
    }
}

/// Older history is asked for only while some remains: with no
/// conversation shown, or once the history of the conversation shown is
/// complete (a channel's recorded flag, or the direct conversation's), the
/// answer is no; while it is not complete, it is yes when the messages
/// loaded fill at most two screens or the view is scrolled to within the
/// threshold of the oldest.
pub proof fn law_fetch_only_incomplete_history(s: ChatState, max_rows: nat, threshold: nat)
    ensures
        s.current_chat_target is None ==> !should_fetch_spec(s, max_rows, threshold),
        s.current_chat_target matches Some(ChatTarget::DM { .. }) && s.dm_history_complete
            ==> !should_fetch_spec(s, max_rows, threshold),
        s.current_chat_target matches Some(ChatTarget::Channel { channel_id, .. })
            && s.channel_history_complete@.contains_key(channel_id) && s.channel_history_complete@[channel_id]
            ==> !should_fetch_spec(s, max_rows, threshold),
        s.current_chat_target matches Some(ChatTarget::DM { .. }) && !s.dm_history_complete
            && (s.dm_messages@.len() <= 2 * max_rows || s.chat_scroll_offset + max_rows + threshold >= s.dm_messages@.len())
            ==> should_fetch_spec(s, max_rows, threshold),
        s.current_chat_target matches Some(ChatTarget::Channel { channel_id, .. })
            && !(s.channel_history_complete@.contains_key(channel_id) && s.channel_history_complete@[channel_id])
            && (s.chat_messages@.len() <= 2 * max_rows || s.chat_scroll_offset + max_rows + threshold >= s.chat_messages@.len())
            ==> should_fetch_spec(s, max_rows, threshold),
{
}

/// In a direct conversation, sending `/accept` (any case, any words after
/// it) accepts the other person's server invitation and `/decline`
/// declines it: exactly that answer, for that person, is sent, then the
/// select sound is queued; nothing is sent as a message.
pub proof fn law_invite_commands(o: App, n: App, user_id: u128)
    requires
        message_is_valid(current_draft(o.chat)),
        sent_message(o, n),
        o.chat.current_chat_target == Some(ChatTarget::DM { user_id }),
        is_command(outgoing_text(o.chat)),
    ensures
        lowercase(command_words(outgoing_text(o.chat))[0]) == "accept"@ ==> n.effects@ == o.effects@ + seq![
            Effect::Send(ClientMessage::AcceptServerInviteFromUser { from_user_id: user_id }),
            Effect::Play(SoundType::Select),
        ],
        lowercase(command_words(outgoing_text(o.chat))[0]) == "decline"@ ==> n.effects@ == o.effects@ + seq![
            Effect::Send(ClientMessage::DeclineServerInviteFromUser { from_user_id: user_id }),
            Effect::Play(SoundType::Select),
        ],
{
    reveal_strlit("accept");
    reveal_strlit("decline");
    assert("accept"@ != "decline"@) by {
        assert("accept"@.len() != "decline"@.len());
    }
}

/// The new-thread form: the title entered at its first step and the
/// content entered at its second become the thread's title and content,
/// sent for the forum shown; the title is kept as the thread awaited.
/// `a` submits the title, `b2` is `b` with only the typed text changed,
/// and `b2` submits the content.
pub proof fn law_new_thread_form(a: App, b: App, b2: App, c: App, fid: u128, k1: KeyEvent, k2: KeyEvent)
    requires
        a.auth.input_mode == Some(InputMode::NewThreadTitle),
        a.forum.current_forum_id == Some(fid),
        trim(a.auth.current_input@).len() > 0,
        k1.code is Enter,
        input_mode_key(a, b, k1),
        b2 == (App { auth: AuthState { current_input: b2.auth.current_input, ..b.auth }, ..b }),
        trim(b2.auth.current_input@).len() > 0,
        k2.code is Enter,
        input_mode_key(b2, c, k2),
    ensures
        b.auth.input_mode == Some(InputMode::NewThreadContent),
        c.effects@.last() matches Effect::Send(ClientMessage::CreateThread { forum_id, title, content })
            && forum_id == fid && title@ == a.auth.current_input@ && content@ == b2.auth.current_input@,
        crate::app::opt_text(c.forum.pending_new_thread_title) == Some(a.auth.current_input@),
{
}

/// Applying a mention puts the name of the selected suggestion (the user
/// at `mention_suggestions[mention_selected]` of the channel's list) in
/// place of the last `@` and the prefix typed, followed by a space; the
/// text before and after it is kept.
pub proof fn law_mention_applies_selected(o: App, n: App)
    requires
        mention_applied(o, n),
        o.chat.current_chat_target is Some,
        o.chat.mention_prefix is Some,
        o.chat.mention_selected < o.chat.mention_suggestions@.len(),
        o.chat.mention_suggestions@[o.chat.mention_selected as int] < o.chat.channel_userlist@.len(),
        last_occurrence(current_draft(o.chat), seq!['@'] + o.chat.mention_prefix->0@) is Some,
    ensures
        ({
            let c = o.chat;
            let name = c.channel_userlist@[c.mention_suggestions@[c.mention_selected as int] as int].username@;
            let d = current_draft(c);
            let i = last_occurrence(d, seq!['@'] + c.mention_prefix->0@)->0;
            let m = current_draft(n.chat);
            &&& m.take(i) == d.take(i)
            &&& m.subrange(i, i + name.len() + 2) == seq!['@'] + name + seq![' ']
            &&& m.skip(i + name.len() + 2) == d.skip(i + 1 + c.mention_prefix->0@.len())
        }),
{
    let c = o.chat;
    let t = c.current_chat_target->0;
    let name = c.channel_userlist@[c.mention_suggestions@[c.mention_selected as int] as int].username@;
    let d = current_draft(c);
    let p = seq!['@'] + c.mention_prefix->0@;
    let i = last_occurrence(d, p)->0;
    crate::services::chat::lemma_last_occurrence_bounds(d, p, d.len() - p.len());
    assert(draft_of(n.chat.chat_input_drafts@, t) == replace_last_word(d, '@', c.mention_prefix->0@, seq!['@'] + name));
    let m = current_draft(n.chat);
    assert(m == d.take(i) + (seq!['@'] + name) + seq![' '] + d.skip(i + p.len()));
    assert(m.take(i) =~= d.take(i));
    assert(m.subrange(i, i + name.len() + 2) =~= seq!['@'] + name + seq![' ']);
    assert(m.skip(i + name.len() + 2) =~= d.skip(i + 1 + c.mention_prefix->0@.len()));
}

/// The new-forum form: the name entered at its first step and the
/// description entered at its second become the forum's name and
/// description. `a` submits the name, `b2` is `b` with only the typed text
/// changed, and `b2` submits the description.
pub proof fn law_new_forum_form(a: App, b: App, b2: App, c: App, k1: KeyEvent, k2: KeyEvent)
    requires
        a.auth.input_mode == Some(InputMode::NewForumName),
        trim(a.auth.current_input@).len() > 0,
        k1.code is Enter,
        input_mode_key(a, b, k1),
        b2 == (App { auth: AuthState { current_input: b2.auth.current_input, ..b.auth }, ..b }),
        trim(b2.auth.current_input@).len() > 0,
        k2.code is Enter,
        input_mode_key(b2, c, k2),
    ensures
        b.auth.input_mode == Some(InputMode::NewForumDescription),
        c.effects@.last() matches Effect::Send(ClientMessage::CreateForum { name, description })
            && name@ == a.auth.current_input@ && description@ == b2.auth.current_input@,
{
}

/// The reply form: a reply that is not blank is sent, as typed, to the
/// thread shown.
pub proof fn law_reply_form(a: App, c: App, k: KeyEvent, tid: u128)
    requires
        a.auth.input_mode == Some(InputMode::NewPostContent),
        a.forum.current_thread_id == Some(tid),
        trim(a.auth.current_input@).len() > 0,
        k.code is Enter,
        input_mode_key(a, c, k),
    ensures
        c.effects@.last() matches Effect::Send(ClientMessage::CreatePost { thread_id, content })
            && thread_id == tid && content@ == a.auth.current_input@,
        c.auth.input_mode is None,
{
}

/// Sending a valid draft empties it, and on a channel sends it, trimmed,
/// to the channel shown.
pub proof fn law_message_goes_to_conversation(o: App, n: App)
    requires
        message_is_valid(current_draft(o.chat)),
        sent_message(o, n),
        o.chat.current_chat_target is Some,
    ensures
        current_draft(n.chat).len() == 0,
        o.chat.current_chat_target matches Some(ChatTarget::Channel { channel_id, .. }) ==>
            n.effects@[o.effects@.len() as int] matches Effect::Send(ClientMessage::SendChannelMessage { channel_id: cid, content })
                && cid == channel_id && content@ == trim(current_draft(o.chat)),
{
    let t = o.chat.current_chat_target->0;
    assert(draft_of(n.chat.chat_input_drafts@, t) == Seq::<char>::empty());
}

/// In a direct conversation, a valid draft that is not an invitation
/// answer is sent, trimmed, to the other person.
pub proof fn law_direct_message_goes_to_person(o: App, n: App, user_id: u128)
    requires
        message_is_valid(current_draft(o.chat)),
        sent_message(o, n),
        o.chat.current_chat_target == Some(ChatTarget::DM { user_id }),
        !(is_command(trim(current_draft(o.chat)))
            && (lowercase(command_words(trim(current_draft(o.chat)))[0]) == "accept"@
                || lowercase(command_words(trim(current_draft(o.chat)))[0]) == "decline"@)),
    ensures
        n.effects@[o.effects@.len() as int] matches Effect::Send(ClientMessage::SendDirectMessage { to, content })
            && to == user_id && content@ == trim(current_draft(o.chat)),
{
}

/// Applying an emoji puts the selected suggestion (at `emoji_selected`) in
/// place of the last `:` and the shortcode typed, followed by a space; the
/// text before and after it is kept.
pub proof fn law_emoji_applies_selected(o: App, n: App)
    requires
        emoji_applied(o, n),
        o.chat.current_chat_target is Some,
        o.chat.emoji_prefix is Some,
        o.chat.emoji_selected < o.chat.emoji_suggestions@.len(),
        last_occurrence(current_draft(o.chat), seq![':'] + o.chat.emoji_prefix->0@) is Some,
    ensures
        ({
            let c = o.chat;
            let e = c.emoji_suggestions@[c.emoji_selected as int]@;
            let d = current_draft(c);
            let i = last_occurrence(d, seq![':'] + c.emoji_prefix->0@)->0;
            let m = current_draft(n.chat);
            &&& m.take(i) == d.take(i)
            &&& m.subrange(i, i + e.len() + 1) == e + seq![' ']
            &&& m.skip(i + e.len() + 1) == d.skip(i + 1 + c.emoji_prefix->0@.len())
        }),
{
    let c = o.chat;
    let t = c.current_chat_target->0;
    let e = c.emoji_suggestions@[c.emoji_selected as int]@;
    let d = current_draft(c);
    let p = seq![':'] + c.emoji_prefix->0@;
    let i = last_occurrence(d, p)->0;
    crate::services::chat::lemma_last_occurrence_bounds(d, p, d.len() - p.len());
    assert(draft_of(n.chat.chat_input_drafts@, t) == replace_last_word(d, ':', c.emoji_prefix->0@, e));
    let m = current_draft(n.chat);
    assert(m == d.take(i) + e + seq![' '] + d.skip(i + p.len()));
    assert(m.take(i) =~= d.take(i));
    assert(m.subrange(i, i + e.len() + 1) =~= e + seq![' ']);
    assert(m.skip(i + e.len() + 1) =~= d.skip(i + 1 + c.emoji_prefix->0@.len()));
}

/// A full history of the conversation shown records the completeness the
/// server reports: for a channel, the channel's flag; for a direct
/// conversation, its own flag.
pub proof fn law_history_records_completeness(o: App, n: App, msg: ServerMessage)
    requires
        server_message_outcome(o, n, msg),
    ensures
        (msg is ChannelMessages && (o.chat.current_chat_target matches Some(ChatTarget::Channel { channel_id: c, .. })
            && c == msg->ChannelMessages_channel_id))
            ==> n.chat.channel_history_complete@.contains_key(msg->ChannelMessages_channel_id)
                && n.chat.channel_history_complete@[msg->ChannelMessages_channel_id] == msg->ChannelMessages_history_complete,
        (msg is DirectMessages && o.chat.current_chat_target == Some(ChatTarget::DM { user_id: msg->DirectMessages_user_id }))
            ==> n.chat.dm_history_complete == msg->DirectMessages_history_complete,
{
}

} // verus!
