//! Chat processing: when to fetch more history, mention and emoji
//! suggestions, display lists of messages, and the avatar images of the
//! people in a conversation.

use vstd::prelude::*;
use vstd::utf8::encode_utf8;
use crate::model::{ChannelMessage, ChatMessageWithMeta, ClientMessage, Color, DirectMessage, User};
use crate::services::image::{
    CacheKey, CachedImage, ImageCache, ImageCacheKey, ImageCacheStats, ImageView, data_url_image,
    fresh_image, live_at, opt_image, touched, unix_time_now, without_expired, expired_at,
    ImageCacheConfig, cache_data_url_outcome, cache_result, count_less, evicted_size, lists_expired,
};
use crate::state::chat::{ChatState, ChatTarget};
use crate::text::{
    char_alphabetic, char_alphanumeric, chars_of, has_prefix, is_alphabetic, is_alphanumeric,
    last_index_of, lowercase, rfind_char, slice_chars, sort_string_vec, dedup_string_vec,
    sort_strings, dedup_strings, starts_with, string_of, to_lowercase, views, utf8_width,
    lemma_encode_utf8_take_step, char_utf8_width,
};

verus! {

broadcast use vstd::std_specs::hash::group_hash_axioms;

// ---------------------------------------------------------------------
// Fetching more history
// ---------------------------------------------------------------------

/// Whether a conversation of `total` messages, scrolled `offset` rows up in
/// a pane of `max_rows` rows, wants older messages: not when its history
/// is complete; else when the offset is within `threshold` rows of the
/// largest offset, or when fewer than two panes of messages are loaded.
pub open spec fn wants_more_history(total: nat, offset: nat, max_rows: nat, threshold: nat, complete: bool) -> bool {
    let max_offset: int = if total > max_rows { total - max_rows } else { 0 };
    let start: int = if max_offset > threshold { max_offset - threshold } else { 0 };
    !complete && (offset >= start || total <= max_rows * 2)
}

/// Whether the conversation shown wants older messages.
pub open spec fn should_fetch_spec(s: ChatState, max_rows: nat, threshold: nat) -> bool {
    match s.current_chat_target {
        Some(ChatTarget::Channel { channel_id, .. }) => wants_more_history(
            s.chat_messages@.len(),
            s.chat_scroll_offset as nat,
            max_rows,
            threshold,
            s.channel_history_complete@.contains_key(channel_id) && s.channel_history_complete@[channel_id],
        ),
        Some(ChatTarget::DM { .. }) => wants_more_history(
            s.dm_messages@.len(),
            s.chat_scroll_offset as nat,
            max_rows,
            threshold,
            s.dm_history_complete,
        ),
        None => false,
    }
}

fn wants_more(total: usize, offset: usize, max_rows: usize, threshold: usize, complete: bool) -> (r: bool)
    requires
        max_rows <= usize::MAX / 2,
    ensures
        r == wants_more_history(total as nat, offset as nat, max_rows as nat, threshold as nat, complete),
{
    let max_offset = total.saturating_sub(max_rows);
    let start = max_offset.saturating_sub(threshold);
    !complete && (offset >= start || total <= max_rows * 2)
}

// ---------------------------------------------------------------------
// Mentions and emoji shortcodes being typed
// ---------------------------------------------------------------------

/// A character that can follow `@` in a mention being typed.
pub open spec fn is_name_char(c: char) -> bool {
    char_alphanumeric(c) || c == '_'
}

/// A character that can follow `:` in an emoji shortcode being typed.
pub open spec fn is_code_char(c: char) -> bool {
    char_alphabetic(c) || c == '_'
}

/// A name character (`mention`) or a shortcode character.
pub open spec fn word_char_ok(c: char, mention: bool) -> bool {
    if mention { is_name_char(c) } else { is_code_char(c) }
}

/// The text after the last `marker` of `s`, when it is not empty and every
/// character of it passes `mention` (name characters) or not (shortcode
/// characters).
pub open spec fn typed_word(s: Seq<char>, marker: char, mention: bool) -> Option<Seq<char>> {
    match last_index_of(s, marker) {
        Some(i) => {
            let w = s.skip(i + 1);
            if w.len() > 0 && forall|k: int| 0 <= k < w.len() ==> #[trigger] word_char_ok(w[k], mention) {
                Some(w)
            } else {
                None
            }
        },
        None => None,
    }
}

/// The user names of `users` whose lower-case form starts with `p`, in the
/// order of `users`.
pub open spec fn names_with_prefix(users: Seq<User>, p: Seq<char>) -> Seq<Seq<char>>
    decreases users.len(),
{
    if users.len() == 0 {
        Seq::empty()
    } else {
        let rest = names_with_prefix(users.drop_last(), p);
        if has_prefix(lowercase(users.last().username@), p) {
            rest.push(users.last().username@)
        } else {
            rest
        }
    }
}

/// The mention suggestions for the input: the names that start, ignoring
/// case, with the mention being typed, sorted.
pub open spec fn mention_suggestions_spec(input: Seq<char>, users: Seq<User>) -> Seq<Seq<char>> {
    match typed_word(input, '@', true) {
        Some(w) => sort_strings(names_with_prefix(users, lowercase(w))),
        None => Seq::empty(),
    }
}

/// `p` occurs in `s` at position `i`.
pub open spec fn occurs_at(s: Seq<char>, p: Seq<char>, i: int) -> bool {
    0 <= i && i + p.len() <= s.len() && s.subrange(i, i + p.len()) == p
}

/// The last position at most `n` at which `p` occurs in `s`.
pub open spec fn last_occurrence_upto(s: Seq<char>, p: Seq<char>, n: int) -> Option<int>
    decreases n + 1,
{
    if n < 0 {
        None
    } else if occurs_at(s, p, n) {
        Some(n)
    } else {
        last_occurrence_upto(s, p, n - 1)
    }
}

/// The last position at which `p` occurs in `s` (what `str::rfind` gives).
pub open spec fn last_occurrence(s: Seq<char>, p: Seq<char>) -> Option<int> {
    last_occurrence_upto(s, p, s.len() - p.len())
}

/// The input with the last `marker` + `prefix` replaced by `replacement`
/// and a space; unchanged where it does not occur.
pub open spec fn replace_last_word(input: Seq<char>, marker: char, prefix: Seq<char>, replacement: Seq<char>) -> Seq<char> {
    let p = seq![marker] + prefix;
    match last_occurrence(input, p) {
        Some(i) => input.take(i) + replacement + seq![' '] + input.skip(i + p.len()),
        None => input,
    }
}

// ---------------------------------------------------------------------
// The emoji table
// ---------------------------------------------------------------------

/// The emoji at position `i` of `emojis::iter()` (default skin tones, in
/// Unicode CLDR order) with its GitHub shortcodes, or `None` past the end.
pub uninterp spec fn emoji_entry(i: int) -> Option<(Seq<char>, Seq<Seq<char>>)>;

/// The emoji that `emojis::get_by_shortcode` finds for a shortcode.
pub uninterp spec fn shortcode_emoji(code: Seq<char>) -> Option<Seq<char>>;

/// The table has exactly `n` entries.
pub open spec fn emoji_table_ends_at(n: nat) -> bool {
    forall|i: int| 0 <= i ==> (#[trigger] emoji_entry(i) is Some <==> i < n)
}

/// The number of entries of the emoji table.
pub open spec fn emoji_table_len() -> nat {
    choose|n: nat| emoji_table_ends_at(n)
}

proof fn lemma_emoji_table_len(n: nat)
    requires
        emoji_table_ends_at(n),
    ensures
        emoji_table_len() == n,
{
    let m = emoji_table_len();
    assert(emoji_table_ends_at(m));
    if m < n {
        assert(emoji_entry(m as int) is Some);
    } else if n < m {
        assert(emoji_entry(n as int) is Some);
    }
}

/// `emojis::iter().count()`: the number of emojis the crate lists.
#[verifier::external_body]
fn emoji_count() -> (n: usize)
    ensures
        emoji_table_ends_at(n as nat),
{
    emojis::iter().count()
}

/// The views of an emoji entry.
pub open spec fn entry_view(e: Option<(String, Vec<String>)>) -> Option<(Seq<char>, Seq<Seq<char>>)> {
    match e {
        Some((s, codes)) => Some((s@, views(codes@))),
        None => None,
    }
}

/// `emojis::iter().nth(i)`: the emoji text and its shortcodes.
#[verifier::external_body]
fn emoji_at(i: usize) -> (r: Option<(String, Vec<String>)>)
    ensures
        entry_view(r) == emoji_entry(i as int),
{
    emojis::iter().nth(i).map(|e| (e.as_str().to_string(), e.shortcodes().map(|c| c.to_string()).collect()))
}

/// The view of an optional string.
pub open spec fn opt_chars(s: Option<String>) -> Option<Seq<char>> {
    match s {
        Some(t) => Some(t@),
        None => None,
    }
}

/// `emojis::get_by_shortcode`: the emoji of a shortcode, if any.
#[verifier::external_body]
fn emoji_for_shortcode(code: &str) -> (r: Option<String>)
    ensures
        opt_chars(r) == shortcode_emoji(code@),
{
    emojis::get_by_shortcode(code).map(|e| e.as_str().to_string())
}

/// Some shortcode of `codes`, in lower case, starts with `p`.
pub open spec fn any_code_prefixed(codes: Seq<Seq<char>>, p: Seq<char>) -> bool
    decreases codes.len(),
{
    codes.len() > 0 && (has_prefix(lowercase(codes.last()), p) || any_code_prefixed(codes.drop_last(), p))
}

/// The emojis among the first `n` entries of the table that have a
/// shortcode starting, ignoring case, with `p`, in table order.
pub open spec fn emoji_hits(n: nat, p: Seq<char>) -> Seq<Seq<char>>
    decreases n,
{
    if n == 0 {
        Seq::empty()
    } else {
        let rest = emoji_hits((n - 1) as nat, p);
        match emoji_entry(n - 1) {
            Some((e, codes)) => if any_code_prefixed(codes, p) { rest.push(e) } else { rest },
            None => rest,
        }
    }
}

/// The emoji suggestions for the input: the emojis with a shortcode
/// starting with the word typed after the last `:`, sorted, without
/// repeats, at most ten.
pub open spec fn emoji_suggestions_spec(input: Seq<char>) -> Seq<Seq<char>> {
    match typed_word(input, ':', false) {
        Some(w) => {
            let all = dedup_strings(sort_strings(emoji_hits(emoji_table_len(), lowercase(w))));
            if all.len() > 10 { all.take(10) } else { all }
        },
        None => Seq::empty(),
    }
}

// ---------------------------------------------------------------------
// Complete shortcodes such as `:smile:`
// ---------------------------------------------------------------------

/// The pattern of a complete shortcode.
pub open spec fn shortcode_pattern() -> Seq<char> {
    ":([a-zA-Z0-9_+-]+):"@
}

/// A character of the class `[a-zA-Z0-9_+-]`.
pub open spec fn is_shortcode_char(c: char) -> bool {
    ('a' <= c && c <= 'z') || ('A' <= c && c <= 'Z') || ('0' <= c && c <= '9') || c == '_' || c == '+' || c == '-'
}

/// The end of the run of shortcode characters that starts at `i`.
pub open spec fn code_run_end(s: Seq<char>, i: int) -> int
    decreases s.len() - i,
{
    if i < 0 || i >= s.len() || !is_shortcode_char(s[i]) {
        i
    } else {
        code_run_end(s, i + 1)
    }
}

/// A complete shortcode starts at `i`.
pub open spec fn code_match_at(s: Seq<char>, i: int) -> bool {
    &&& 0 <= i < s.len()
    &&& s[i] == ':'
    &&& code_run_end(s, i + 1) > i + 1
    &&& code_run_end(s, i + 1) < s.len()
    &&& s[code_run_end(s, i + 1)] == ':'
}

/// The first complete shortcode at or after `i`, as the positions of its
/// first character and just past its last: the leftmost match of the
/// shortcode pattern.
pub open spec fn code_span_from(s: Seq<char>, i: int) -> Option<(int, int)>
    decreases s.len() - i,
{
    if i < 0 || i >= s.len() {
        None
    } else if code_match_at(s, i) {
        Some((i, code_run_end(s, i + 1) + 1))
    } else {
        code_span_from(s, i + 1)
    }
}

/// The number of UTF-8 bytes of the first `k` characters of `s`.
pub open spec fn byte_offset(s: Seq<char>, k: int) -> int {
    encode_utf8(s.take(k)).len() as int
}

/// A span of character positions as byte offsets.
pub open spec fn byte_span(s: Seq<char>, span: Option<(int, int)>) -> Option<(int, int)> {
    match span {
        Some((a, b)) => Some((byte_offset(s, a), byte_offset(s, b))),
        None => None,
    }
}

/// An optional pair of offsets as integers.
pub open spec fn int_span(r: Option<(usize, usize)>) -> Option<(int, int)> {
    match r {
        Some((a, b)) => Some((a as int, b as int)),
        None => None,
    }
}

/// `regex::Regex::new` and `Regex::find_at` with the shortcode pattern:
/// the byte offsets of the leftmost match that starts at or after byte
/// `start`. The pattern has no anchors or word boundaries, so this is what
/// `code_span_from` describes from the character at that byte; `start`
/// lies on a character boundary, so within the text, where `find_at`
/// does not panic.
#[verifier::external_body]
fn regex_find_at(pattern: &str, text: &str, start: usize) -> (r: Option<(usize, usize)>)
    requires
        pattern@ == shortcode_pattern(),
        exists|k: int| 0 <= k <= text@.len() && byte_offset(text@, k) == start,
    ensures
        forall|k: int| 0 <= k <= text@.len() && #[trigger] byte_offset(text@, k) == start
            ==> int_span(r) == byte_span(text@, code_span_from(text@, k)),
{
    let re = regex::Regex::new(pattern).unwrap();
    re.find_at(text, start).map(|m| (m.start(), m.end()))
}

/// The code of the complete shortcode that starts at `i` (between its
/// colons).
pub open spec fn code_text(s: Seq<char>, i: int) -> Seq<char> {
    s.subrange(i + 1, code_run_end(s, i + 1))
}

/// The first position at or after `i` where a complete shortcode that
/// names an emoji starts.
pub open spec fn emoji_code_from(s: Seq<char>, i: int) -> Option<int>
    decreases s.len() - i,
{
    if i < 0 || i >= s.len() {
        None
    } else if code_match_at(s, i) && shortcode_emoji(code_text(s, i)) is Some {
        Some(i)
    } else {
        emoji_code_from(s, i + 1)
    }
}

/// The character span of the first complete shortcode of `s` that names
/// an emoji.
pub open spec fn emoji_code_span(s: Seq<char>) -> Option<(int, int)> {
    match emoji_code_from(s, 0) {
        Some(a) => Some((a, code_run_end(s, a + 1) + 1)),
        None => None,
    }
}

/// What `check_for_exact_emoji_match` finds: the emoji of the first
/// complete shortcode that names one, with the byte offsets of the
/// shortcode.
pub open spec fn exact_emoji(s: Seq<char>) -> Option<(Seq<char>, int, int)> {
    match emoji_code_span(s) {
        Some((a, b)) => Some((shortcode_emoji(code_text(s, a))->0, byte_offset(s, a), byte_offset(s, b))),
        None => None,
    }
}

// ---------------------------------------------------------------------
// Messages for display
// ---------------------------------------------------------------------

/// A message ready for display, as values.
pub struct MessageMeta {
    pub author: Seq<char>,
    pub content: Seq<char>,
    pub color: Color,
    pub profile_pic: Option<Seq<char>>,
    pub timestamp: Option<i64>,
}

impl View for ChatMessageWithMeta {
    type V = MessageMeta;

    open spec fn view(&self) -> MessageMeta {
        MessageMeta {
            author: self.author@,
            content: self.content@,
            color: self.color,
            profile_pic: opt_chars(self.profile_pic),
            timestamp: self.timestamp,
        }
    }
}

/// The upper-case hexadecimal digit of `d` (0 to 15).
pub open spec fn hex_upper(d: int) -> char {
    if d < 10 { (48 + d) as char } else { (55 + d) as char }
}

/// The name shown for an unknown user: `User#` and the first eight digits
/// of the identifier as the hyphenated UUID text writes it, in upper case
/// (the top 32 bits in hexadecimal).
pub open spec fn fallback_name(id: u128) -> Seq<char> {
    let top = (id as int) / 0x1_0000_0000_0000_0000_0000_0000;
    "User#"@ + Seq::new(8, |k: int| hex_upper((top / pow16(7 - k)) % 16))
}

/// 16 to the power `k` (0 to 7).
pub open spec fn pow16(k: int) -> int
    decreases k,
{
    if k <= 0 { 1 } else { 16 * pow16(k - 1) }
}

/// The first user of `users` with the identifier.
pub open spec fn find_user(users: Seq<User>, id: u128) -> Option<User>
    decreases users.len(),
{
    if users.len() == 0 {
        None
    } else if users[0].id == id {
        Some(users[0])
    } else {
        find_user(users.drop_first(), id)
    }
}

/// A message line written by a known user.
pub open spec fn meta_by(u: User, content: Seq<char>, t: i64) -> MessageMeta {
    MessageMeta {
        author: u.username@,
        content: content,
        color: u.color,
        profile_pic: opt_chars(u.profile_pic),
        timestamp: Some(t),
    }
}

/// A message line written by an unknown user.
pub open spec fn meta_unknown(id: u128, content: Seq<char>, t: i64) -> MessageMeta {
    MessageMeta {
        author: fallback_name(id),
        content: content,
        color: Color::Gray,
        profile_pic: None,
        timestamp: Some(t),
    }
}

/// The display line of a channel message, its author looked up in the
/// channel's user list.
pub open spec fn channel_line(users: Seq<User>, m: ChannelMessage) -> MessageMeta {
    match find_user(users, m.sent_by) {
        Some(u) => meta_by(u, m.content@, m.timestamp),
        None => meta_unknown(m.sent_by, m.content@, m.timestamp),
    }
}

/// The display line of a direct message: its author is the current user,
/// or looked up in the conversation list.
pub open spec fn dm_line(users: Seq<User>, me: Option<User>, m: DirectMessage) -> MessageMeta {
    match me {
        Some(u) => if m.from != u.id {
            match find_user(users, m.from) {
                Some(v) => meta_by(v, m.content@, m.timestamp),
                None => meta_unknown(m.from, m.content@, m.timestamp),
            }
        } else {
            meta_by(u, m.content@, m.timestamp)
        },
        None => meta_unknown(m.from, m.content@, m.timestamp),
    }
}

/// The display lines of the conversation shown.
pub open spec fn message_lines(s: ChatState, me: Option<User>) -> Seq<MessageMeta> {
    match s.current_chat_target {
        Some(ChatTarget::Channel { .. }) => Seq::new(
            s.chat_messages@.len(),
            |i: int| channel_line(s.channel_userlist@, s.chat_messages@[i]),
        ),
        Some(ChatTarget::DM { .. }) => Seq::new(
            s.dm_messages@.len(),
            |i: int| dm_line(s.dm_user_list@, me, s.dm_messages@[i]),
        ),
        None => Seq::empty(),
    }
}

/// Some user of `users` has no profile picture and the identifier.
pub open spec fn lacks_avatar(users: Seq<User>, id: u128) -> bool {
    exists|i: int| 0 <= i < users.len() && #[trigger] users[i].id == id && users[i].profile_pic is None
}

/// The users of the conversation lists that have no profile picture.
pub open spec fn missing_avatar(s: ChatState, id: u128) -> bool {
    lacks_avatar(s.channel_userlist@, id) || lacks_avatar(s.dm_user_list@, id)
}

// ---------------------------------------------------------------------
// Executable helpers
// ---------------------------------------------------------------------

proof fn lemma_last_index_bounds(s: Seq<char>, c: char)
    ensures
        last_index_of(s, c) matches Some(i) ==> 0 <= i < s.len() && s[i] == c,
    decreases s.len(),
{
    if s.len() > 0 && s.last() != c {
        lemma_last_index_bounds(s.drop_last(), c);
    }
}

pub(crate) proof fn lemma_last_occurrence_bounds(s: Seq<char>, p: Seq<char>, n: int)
    ensures
        last_occurrence_upto(s, p, n) matches Some(i) ==> occurs_at(s, p, i),
    decreases n + 1,
{
    if n >= 0 && !occurs_at(s, p, n) {
        lemma_last_occurrence_bounds(s, p, n - 1);
    }
}

/// The word typed after the last `marker`, as `typed_word` describes.
pub fn typed_word_of(s: &Vec<char>, marker: char, mention: bool) -> (r: Option<Vec<char>>)
    ensures
        r matches Some(w) ==> typed_word(s@, marker, mention) == Some(w@),
        r is None ==> typed_word(s@, marker, mention) is None,
{
    match rfind_char(s.as_slice(), marker) {
        None => None,
        Some(i) => {
            proof {
                lemma_last_index_bounds(s@, marker);
            }
            assert(i < s.len());
            let w = slice_chars(s, i + 1, s.len());
            assert(w@ =~= s@.skip(i + 1));
            if w.len() == 0 {
                return None;
            }
            let mut k: usize = 0;
            while k < w.len()
                invariant
                    k <= w@.len(),
                    i < s@.len(),
                    w@ == s@.skip(i + 1),
                    last_index_of(s@, marker) == Some(i as int),
                    forall|j: int| 0 <= j < k ==> #[trigger] word_char_ok(w@[j], mention),
                decreases w.len() - k,
            {
                let c = w[k];
                let ok = if mention {
                    is_alphanumeric(c) || c == '_'
                } else {
                    is_alphabetic(c) || c == '_'
                };
                if !ok {
                    assert(!word_char_ok(w@[k as int], mention));
                    assert(!word_char_ok(s@.skip(i + 1)[k as int], mention));
                    assert(typed_word(s@, marker, mention) is None);
                    return None;
                }
                k = k + 1;
            }
            Some(w)
        },
    }
}

/// The last position at which `p` occurs in `s`.
fn rfind_seq(s: &Vec<char>, p: &Vec<char>) -> (r: Option<usize>)
    ensures
        r matches Some(i) ==> last_occurrence(s@, p@) == Some(i as int),
        r is None ==> last_occurrence(s@, p@) is None,
{
    if p.len() > s.len() {
        return None;
    }
    let mut n: usize = s.len() - p.len();
    loop
        invariant
            n + p.len() <= s.len(),
            last_occurrence(s@, p@) == last_occurrence_upto(s@, p@, n as int),
        decreases n,
    {
        let mut j: usize = 0;
        let mut same = true;
        while j < p.len() && same
            invariant
                n + p.len() <= s.len(),
                j <= p.len(),
                same ==> s@.subrange(n as int, n + j) == p@.subrange(0, j as int),
                !same ==> s@.subrange(n as int, n + p@.len()) != p@,
            decreases p.len() - j + (if same { 1int } else { 0int }),
        {
            if s[n + j] != p[j] {
                assert(s@.subrange(n as int, n + p@.len())[j as int] != p@[j as int]);
                same = false;
            } else {
                j = j + 1;
                assert(s@.subrange(n as int, n + j) =~= p@.subrange(0, j as int));
            }
        }
        if same {
            assert(p@.subrange(0, p@.len() as int) =~= p@);
            assert(occurs_at(s@, p@, n as int));
            return Some(n);
        }
        assert(!occurs_at(s@, p@, n as int));
        if n == 0 {
            assert(last_occurrence_upto(s@, p@, -1) is None);
            return None;
        }
        n = n - 1;
    }
}

/// `input` with the last `marker` + `prefix` replaced.
fn replace_last(input: &str, marker: char, prefix: &str, replacement: &Vec<char>) -> (r: String)
    ensures
        r@ == replace_last_word(input@, marker, prefix@, replacement@),
{
    let s = chars_of(input);
    let mut p: Vec<char> = Vec::new();
    p.push(marker);
    let pc = chars_of(prefix);
    crate::text::push_all(&mut p, pc.as_slice());
    assert(p@ =~= seq![marker] + prefix@);
    match rfind_seq(&s, &p) {
        None => input.to_string(),
        Some(i) => {
            proof {
                lemma_last_occurrence_bounds(s@, p@, s@.len() - p@.len());
                assert(last_occurrence(s@, p@) == Some(i as int));
                assert(occurs_at(s@, p@, i as int));
            }
            let mut out = slice_chars(&s, 0, i);
            crate::text::push_all(&mut out, replacement.as_slice());
            out.push(' ');
            let n = s.len();
            let pl = p.len();
            assert(i + pl <= n);
            let tail = slice_chars(&s, i + pl, n);
            crate::text::push_all(&mut out, tail.as_slice());
            assert(out@ =~= s@.take(i as int) + replacement@ + seq![' '] + s@.skip(i + p@.len()));
            string_of(out.as_slice())
        },
    }
}

/// The first user with the identifier.
pub fn find_user_in<'a>(users: &'a Vec<User>, id: u128) -> (r: Option<&'a User>)
    ensures
        r matches Some(u) ==> find_user(users@, id) == Some(*u),
        r is None ==> find_user(users@, id) is None,
{
    let mut i: usize = 0;
    assert(users@.skip(0) =~= users@);
    while i < users.len()
        invariant
            i <= users@.len(),
            find_user(users@, id) == find_user(users@.skip(i as int), id),
        decreases users.len() - i,
    {
        if users[i].id == id {
            assert(users@.skip(i as int)[0] == users@[i as int]);
            return Some(&users[i]);
        }
        assert(users@.skip(i as int).drop_first() =~= users@.skip(i + 1));
        i = i + 1;
    }
    assert(users@.skip(i as int) =~= Seq::<User>::empty());
    None
}

/// The fallback name of an identifier.
pub fn fallback_name_of(id: u128) -> (r: String)
    ensures
        r@ == fallback_name(id),
{
    let top: u128 = id / 0x1_0000_0000_0000_0000_0000_0000;
    proof {
        reveal_strlit("User#");
    }
    let mut out: Vec<char> = Vec::new();
    out.push('U');
    out.push('s');
    out.push('e');
    out.push('r');
    out.push('#');
    let divisors: [u128; 8] = [0x1000_0000, 0x100_0000, 0x10_0000, 0x1_0000, 0x1000, 0x100, 0x10, 1];
    proof {
        reveal_with_fuel(pow16, 8);
        assert(out@ =~= "User#"@);
        assert forall|j: int| 0 <= j < 8 implies divisors@[j] == pow16(7 - j) by {
            assert(pow16(0) == 1);
            assert(pow16(1) == 16);
            assert(pow16(2) == 0x100);
            assert(pow16(3) == 0x1000);
            assert(pow16(4) == 0x1_0000);
            assert(pow16(5) == 0x10_0000);
            assert(pow16(6) == 0x100_0000);
            assert(pow16(7) == 0x1000_0000);
        }
    }
    let mut k: usize = 0;
    while k < 8
        invariant
            k <= 8,
            top == (id as int) / 0x1_0000_0000_0000_0000_0000_0000,
            divisors@ == seq![0x1000_0000u128, 0x100_0000, 0x10_0000, 0x1_0000, 0x1000, 0x100, 0x10, 1],
            forall|j: int| 0 <= j < 8 ==> divisors@[j] == pow16(7 - j),
            out@.len() == 5 + k,
            out@.take(5) == "User#"@,
            forall|j: int| 0 <= j < k ==> #[trigger] out@[5 + j] == hex_upper(((top as int) / pow16(7 - j)) % 16),
        decreases 8 - k,
    {
        let d = (top / divisors[k]) % 16;
        let c: char = if d < 10 { ((48 + d) as u8) as char } else { ((55 + d) as u8) as char };
        assert(c == hex_upper(d as int));
        out.push(c);
        k = k + 1;
    }
    let ghost tail = Seq::new(8, |k: int| hex_upper(((top as int) / pow16(7 - k)) % 16));
    assert forall|j: int| 0 <= j < 13 implies out@[j] == ("User#"@ + tail)[j] by {
        if j >= 5 {
            assert(out@[5 + (j - 5)] == hex_upper(((top as int) / pow16(7 - (j - 5))) % 16));
        } else {
            assert(out@.take(5)[j] == out@[j]);
        }
    }
    assert(out@ =~= "User#"@ + tail);
    string_of(out.as_slice())
}

/// The display line of a message by a known user.
fn line_by(u: &User, content: &String, t: i64) -> (r: ChatMessageWithMeta)
    ensures
        r@ == meta_by(*u, content@, t),
{
    ChatMessageWithMeta {
        author: u.username.clone(),
        content: content.clone(),
        color: u.color,
        profile_pic: crate::model::copy_opt_string(&u.profile_pic),
        timestamp: Some(t),
    }
}

/// The display line of a message by an unknown user.
fn line_unknown(id: u128, content: &String, t: i64) -> (r: ChatMessageWithMeta)
    ensures
        r@ == meta_unknown(id, content@, t),
{
    ChatMessageWithMeta {
        author: fallback_name_of(id),
        content: content.clone(),
        color: Color::Gray,
        profile_pic: None,
        timestamp: Some(t),
    }
}


proof fn lemma_code_run_end_bounds(s: Seq<char>, i: int)
    requires
        0 <= i,
    ensures
        i <= code_run_end(s, i),
        code_run_end(s, i) <= s.len() || code_run_end(s, i) == i,
        forall|j: int| i <= j < code_run_end(s, i) ==> is_shortcode_char(#[trigger] s[j]),
        code_run_end(s, i) < s.len() ==> !is_shortcode_char(s[code_run_end(s, i)]),
    decreases s.len() - i,
{
    if i < s.len() && is_shortcode_char(s[i]) {
        lemma_code_run_end_bounds(s, i + 1);
    }
}

/// Facts about the first complete shortcode span.
pub(crate) proof fn lemma_code_span_facts(s: Seq<char>, i: int)
    requires
        0 <= i,
    ensures
        code_span_from(s, i) matches Some((a, b)) ==> i <= a && a + 2 < b && b <= s.len()
            && code_match_at(s, a) && b == code_run_end(s, a + 1) + 1,
    decreases s.len() - i,
{
    if i < s.len() {
        if code_match_at(s, i) {
            lemma_code_run_end_bounds(s, i + 1);
        } else {
            lemma_code_span_facts(s, i + 1);
        }
    }
}

/// More characters take more UTF-8 bytes.
pub(crate) proof fn lemma_byte_offset_strict(s: Seq<char>, j: int, k: int)
    requires
        0 <= j < k <= s.len(),
    ensures
        byte_offset(s, j) < byte_offset(s, k),
    decreases k - j,
{
    lemma_encode_utf8_take_step(s, k - 1);
    if j < k - 1 {
        lemma_byte_offset_strict(s, j, k - 1);
    }
}

/// The character position whose UTF-8 offset in `s` is `b`, if any.
pub fn char_index_at_byte(s: &Vec<char>, b: usize) -> (r: Option<usize>)
    ensures
        r matches Some(k) ==> k <= s@.len() && byte_offset(s@, k as int) == b,
        r is None ==> forall|k: int| 0 <= k <= s@.len() ==> byte_offset(s@, k) != b,
{
    let mut total: usize = 0;
    let mut i: usize = 0;
    assert(s@.take(0) =~= Seq::<char>::empty());
    while i < s.len()
        invariant
            i <= s@.len(),
            total == byte_offset(s@, i as int),
            total <= b,
            forall|k: int| 0 <= k < i ==> byte_offset(s@, k) != b,
        decreases s.len() - i,
    {
        if total == b {
            return Some(i);
        }
        proof {
            lemma_encode_utf8_take_step(s@, i as int);
            assert forall|k: int| 0 <= k < i + 1 implies byte_offset(s@, k) != b by {
                if k < i {
                } else {
                    assert(k == i);
                }
            }
        }
        let w = char_utf8_width(s[i]);
        if w > b - total {
            proof {
                assert forall|k: int| 0 <= k <= s@.len() implies byte_offset(s@, k) != b by {
                    if k > i + 1 {
                        lemma_byte_offset_strict(s@, i + 1, k);
                    }
                }
            }
            return None;
        }
        total = total + w;
        i = i + 1;
    }
    if total == b {
        Some(i)
    } else {
        None
    }
}

/// No complete shortcode starts between `i` and the first one at or after
/// it, so the first naming an emoji is found from there; with none at all,
/// there is none naming an emoji.
pub(crate) proof fn lemma_emoji_code_skip(s: Seq<char>, i: int)
    requires
        0 <= i,
    ensures
        code_span_from(s, i) matches Some((a, _)) ==> emoji_code_from(s, i) == emoji_code_from(s, a),
        code_span_from(s, i) is None ==> emoji_code_from(s, i) is None,
    decreases s.len() - i,
{
    if i < s.len() && !code_match_at(s, i) {
        lemma_emoji_code_skip(s, i + 1);
    }
}

/// Where the first shortcode naming an emoji at or after `i` lies.
pub(crate) proof fn lemma_emoji_code_facts(s: Seq<char>, i: int)
    requires
        0 <= i,
    ensures
        emoji_code_from(s, i) matches Some(a) ==> i <= a && code_match_at(s, a)
            && a + 2 < code_run_end(s, a + 1) + 1 <= s.len(),
    decreases s.len() - i,
{
    if i < s.len() {
        if code_match_at(s, i) && shortcode_emoji(code_text(s, i)) is Some {
            lemma_code_run_end_bounds(s, i + 1);
        } else {
            lemma_emoji_code_facts(s, i + 1);
        }
    }
}

/// The emoji of the first complete shortcode that names one, its
/// character span and its byte span.
pub fn find_exact_emoji(input: &str) -> (r: Option<(String, usize, usize, usize, usize)>)
    ensures
        r is None <==> exact_emoji(input@) is None,
        r matches Some((e, ca, cb, ba, bb)) ==> emoji_code_span(input@) == Some((ca as int, cb as int))
            && exact_emoji(input@) == Some((e@, ba as int, bb as int)),
{
    let s = chars_of(input);
    let pattern = ":([a-zA-Z0-9_+-]+):";
    let mut from: usize = 0;
    let mut from_byte: usize = 0;
    assert(s@.take(0) =~= Seq::<char>::empty());
    loop
        invariant
            s@ == input@,
            pattern@ == shortcode_pattern(),
            from <= s@.len(),
            byte_offset(s@, from as int) == from_byte,
            emoji_code_from(s@, 0) == emoji_code_from(s@, from as int),
        decreases s@.len() - from,
    {
        proof {
            lemma_code_span_facts(s@, from as int);
            lemma_emoji_code_skip(s@, from as int);
        }
        match regex_find_at(pattern, input, from_byte) {
            None => {
                return None;
            },
            Some((ba, bb)) => {
                assert(code_span_from(s@, from as int) is Some);
                let ghost span = code_span_from(s@, from as int)->0;
                assert(span.0 + 2 < span.1 && span.1 <= s@.len());
                let ka = char_index_at_byte(&s, ba);
                let kb = char_index_at_byte(&s, bb);
                match (ka, kb) {
                    (Some(a), Some(b)) => {
                        proof {
                            if a < span.0 {
                                lemma_byte_offset_strict(s@, a as int, span.0);
                            } else if a > span.0 {
                                lemma_byte_offset_strict(s@, span.0, a as int);
                            }
                            if b < span.1 {
                                lemma_byte_offset_strict(s@, b as int, span.1);
                            } else if b > span.1 {
                                lemma_byte_offset_strict(s@, span.1, b as int);
                            }
                            assert(a == span.0 && b == span.1);
                        }
                        let code = string_of(slice_chars(&s, a + 1, b - 1).as_slice());
                        assert(code@ == code_text(s@, a as int));
                        match emoji_for_shortcode(code.as_str()) {
                            Some(e) => {
                                return Some((e, a, b, ba, bb));
                            },
                            None => {
                                let w = char_utf8_width(s[a]);
                                proof {
                                    lemma_encode_utf8_take_step(s@, a as int);
                                    lemma_byte_offset_strict(s@, a as int + 1, b as int);
                                    assert(emoji_code_from(s@, a as int) == emoji_code_from(s@, a as int + 1));
                                }
                                from = a + 1;
                                from_byte = ba + w;
                            },
                        }
                    },
                    _ => {
                        proof {
                            assert(byte_offset(s@, span.0) == ba as int);
                            assert(byte_offset(s@, span.1) == bb as int);
                        }
                        return None;
                    },
                }
            },
        }
    }
}

/// Chat processing with an optional image cache for avatars.
pub struct ChatService {
    pub image_cache: Option<ImageCache>,
}

/// The time to live of a cached avatar: two hours.
pub const AVATAR_TTL_SECONDS: u64 = 7200;

/// What looking up, and where needed decoding and caching, the avatar of
/// user `id` (picture `pic`) at time `now` does to a cache holding
/// `before`: a live cached image is returned, touched; otherwise the
/// picture is decoded and cached for two hours and returned, or nothing is
/// returned and only a stale image is dropped.
pub open spec fn avatar_outcome(
    before: Map<CacheKey, ImageView>,
    id: u128,
    pic: Seq<char>,
    now: u64,
    r: Option<ImageView>,
    after: Map<CacheKey, ImageView>,
) -> bool {
    let k = CacheKey::UserAvatar(id);
    if live_at(before, k, now) {
        r == Some(touched(before[k], now)) && after == before.insert(k, touched(before[k], now))
    } else {
        &&& r == match data_url_image(pic) {
            Some((f, d)) => Some(fresh_image(d, f, Some(AVATAR_TTL_SECONDS), now)),
            None => None,
        }
        &&& r matches Some(img) ==> after.contains_key(k) && after[k] == img
        &&& r is None ==> after == if before.contains_key(k) { before.remove(k) } else { before }
    }
}

/// One request of a batch: a user without a picture changes nothing and
/// gets nothing; otherwise `avatar_outcome` at time `t`.
pub open spec fn avatar_step(
    before: Map<CacheKey, ImageView>,
    u: User,
    r: Option<CachedImage>,
    t: u64,
    after: Map<CacheKey, ImageView>,
) -> bool {
    match u.profile_pic {
        None => r is None && after == before,
        Some(pic) => avatar_outcome(before, u.id, pic@, t, opt_image(r), after),
    }
}

/// The cache states of a batch: `states[0]` is `first`, the last is
/// `last`, and each request takes one state to the next.
pub open spec fn avatar_chain(
    states: Seq<Map<CacheKey, ImageView>>,
    times: Seq<u64>,
    users: Seq<User>,
    results: Seq<(u128, Option<CachedImage>)>,
    first: Map<CacheKey, ImageView>,
    last: Map<CacheKey, ImageView>,
) -> bool {
    &&& states.len() == users.len() + 1
    &&& times.len() == users.len()
    &&& results.len() == users.len()
    &&& states[0] == first
    &&& states.last() == last
    &&& forall|i: int| 0 <= i < users.len() ==> #[trigger] avatar_step(states[i], users[i], results[i].1,
        times[i], states[i + 1])
}

proof fn lemma_avatar_chain_push(
    states: Seq<Map<CacheKey, ImageView>>,
    times: Seq<u64>,
    users: Seq<User>,
    results: Seq<(u128, Option<CachedImage>)>,
    first: Map<CacheKey, ImageView>,
    mid: Map<CacheKey, ImageView>,
    u: User,
    res: (u128, Option<CachedImage>),
    t: u64,
    next: Map<CacheKey, ImageView>,
)
    requires
        avatar_chain(states, times, users, results, first, mid),
        avatar_step(mid, u, res.1, t, next),
    ensures
        avatar_chain(states.push(next), times.push(t), users.push(u), results.push(res), first, next),
{
    let s2 = states.push(next);
    let u2 = users.push(u);
    assert forall|i: int| 0 <= i < u2.len() implies #[trigger] avatar_step(s2[i], u2[i], results.push(res)[i].1,
        times.push(t)[i], s2[i + 1]) by {
        if i < users.len() {
            assert(s2[i] == states[i] && s2[i + 1] == states[i + 1] && u2[i] == users[i]);
            assert(results.push(res)[i] == results[i] && times.push(t)[i] == times[i]);
            assert(avatar_step(states[i], users[i], results[i].1, times[i], states[i + 1]));
        } else {
            assert(s2[i] == mid);
        }
    }
}

/// The people of the conversation shown: the channel's users or the
/// direct-message list.
pub open spec fn conversation_people(s: ChatState) -> Seq<User> {
    match s.current_chat_target {
        Some(ChatTarget::Channel { .. }) => s.channel_userlist@,
        Some(ChatTarget::DM { .. }) => s.dm_user_list@,
        None => Seq::empty(),
    }
}

/// One person of a preload: nothing changes for a person without a
/// picture or whose picture has a live image at time `checked`; otherwise
/// the picture is decoded and cached for two hours at time `made`.
pub open spec fn preload_step(
    before: Map<CacheKey, ImageView>,
    before_count: usize,
    config: ImageCacheConfig,
    u: User,
    checked: u64,
    made: u64,
    after: Map<CacheKey, ImageView>,
    after_count: usize,
) -> bool {
    match u.profile_pic {
        None => after == before && after_count == before_count,
        Some(pic) => if live_at(before, CacheKey::UserAvatar(u.id), checked) {
            after == before && after_count == before_count
        } else {
            exists|res: Result<ImageView, Seq<char>>| #[trigger] cache_data_url_outcome(before, before_count, config,
                CacheKey::UserAvatar(u.id), pic@, Some(AVATAR_TTL_SECONDS), made, res, after, after_count)
        },
    }
}

/// The cache states and byte counts of a preload, one step per person.
pub open spec fn preload_chain(
    maps: Seq<Map<CacheKey, ImageView>>,
    counts: Seq<usize>,
    checked: Seq<u64>,
    made: Seq<u64>,
    config: ImageCacheConfig,
    people: Seq<User>,
    first: Map<CacheKey, ImageView>,
    first_count: usize,
    last: Map<CacheKey, ImageView>,
    last_count: usize,
) -> bool {
    &&& maps.len() == people.len() + 1
    &&& counts.len() == people.len() + 1
    &&& checked.len() == people.len()
    &&& made.len() == people.len()
    &&& maps[0] == first && counts[0] == first_count
    &&& maps.last() == last && counts.last() == last_count
    &&& forall|i: int| 0 <= i < people.len() ==> #[trigger] preload_step(maps[i], counts[i], config, people[i],
        checked[i], made[i], maps[i + 1], counts[i + 1])
}

/// What preloading the avatars of the people of the conversation shown in
/// `s` does to the service: nothing without a cache or a conversation;
/// otherwise the cache keeps its settings and goes through one
/// `preload_step` per person.
pub open spec fn preloaded(o: ChatService, n: ChatService, s: ChatState) -> bool {
    &&& (o.image_cache is None || s.current_chat_target is None) ==> n == o
    &&& o.image_cache is Some ==> n.image_cache is Some
        && n.image_cache->0.settings() == o.image_cache->0.settings()
    &&& (o.image_cache is Some && s.current_chat_target is Some) ==> exists|
        maps: Seq<Map<CacheKey, ImageView>>, counts: Seq<usize>, checked: Seq<u64>, made: Seq<u64>|
        #[trigger] preload_chain(maps, counts, checked, made, o.image_cache->0.settings(), conversation_people(s),
            o.image_cache->0@, o.image_cache->0.size_counter(), n.image_cache->0@, n.image_cache->0.size_counter())
}

/// What dropping the expired images does to the service: nothing without a
/// cache (and no count); otherwise the images expired at some time `now`
/// are dropped, `removed` counts them, and the settings are kept.
pub open spec fn cleaned(o: ChatService, n: ChatService, removed: Option<usize>) -> bool {
    &&& o.image_cache is None ==> n == o && removed is None
    &&& o.image_cache is Some ==> removed is Some && n.image_cache is Some
        && n.image_cache->0.settings() == o.image_cache->0.settings()
        && exists|now: u64, gone: Seq<CacheKey>| removed->0 == o.image_cache->0.expired_count_at(now)
            && n.image_cache->0@ == without_expired(o.image_cache->0@, now)
            && #[trigger] lists_expired(o.image_cache->0@, now, gone)
            && n.image_cache->0.size_counter() == count_less(o.image_cache->0.size_counter(),
                evicted_size(o.image_cache->0@, gone))
}

/// Preloading depends on the chat state only through its conversation.
pub(crate) proof fn lemma_preloaded_same_people(o: ChatService, n: ChatService, s: ChatState, t: ChatState)
    requires
        preloaded(o, n, s),
        conversation_people(s) == conversation_people(t),
        s.current_chat_target is Some <==> t.current_chat_target is Some,
    ensures
        preloaded(o, n, t),
{
    if o.image_cache is Some && s.current_chat_target is Some {
        let (maps, counts, checked, made) = choose|
            maps: Seq<Map<CacheKey, ImageView>>, counts: Seq<usize>, checked: Seq<u64>, made: Seq<u64>|
            #[trigger] preload_chain(maps, counts, checked, made, o.image_cache->0.settings(), conversation_people(s),
                o.image_cache->0@, o.image_cache->0.size_counter(), n.image_cache->0@, n.image_cache->0.size_counter());
        assert(preload_chain(maps, counts, checked, made, o.image_cache->0.settings(), conversation_people(t),
            o.image_cache->0@, o.image_cache->0.size_counter(), n.image_cache->0@, n.image_cache->0.size_counter()));
    }
}

proof fn lemma_preload_chain_push(
    maps: Seq<Map<CacheKey, ImageView>>,
    counts: Seq<usize>,
    checked: Seq<u64>,
    made: Seq<u64>,
    config: ImageCacheConfig,
    people: Seq<User>,
    first: Map<CacheKey, ImageView>,
    first_count: usize,
    mid: Map<CacheKey, ImageView>,
    mid_count: usize,
    u: User,
    t1: u64,
    t2: u64,
    next: Map<CacheKey, ImageView>,
    next_count: usize,
)
    requires
        preload_chain(maps, counts, checked, made, config, people, first, first_count, mid, mid_count),
        preload_step(mid, mid_count, config, u, t1, t2, next, next_count),
    ensures
        preload_chain(maps.push(next), counts.push(next_count), checked.push(t1), made.push(t2), config,
            people.push(u), first, first_count, next, next_count),
{
    let m2 = maps.push(next);
    let c2 = counts.push(next_count);
    let p2 = people.push(u);
    assert forall|i: int| 0 <= i < p2.len() implies #[trigger] preload_step(m2[i], c2[i], config, p2[i],
        checked.push(t1)[i], made.push(t2)[i], m2[i + 1], c2[i + 1]) by {
        if i < people.len() {
            assert(m2[i] == maps[i] && m2[i + 1] == maps[i + 1] && c2[i] == counts[i] && c2[i + 1] == counts[i + 1]);
            assert(p2[i] == people[i] && checked.push(t1)[i] == checked[i] && made.push(t2)[i] == made[i]);
            assert(preload_step(maps[i], counts[i], config, people[i], checked[i], made[i], maps[i + 1], counts[i + 1]));
        } else {
            assert(m2[i] == mid && c2[i] == mid_count);
        }
    }
}

impl ChatService {

    /// No image cache.
    pub fn new() -> (r: ChatService)
        ensures
            r.image_cache is None,
    {
        ChatService { image_cache: None }
    }

    /// Avatars go through the given cache.
    pub fn with_image_cache(image_cache: ImageCache) -> (r: ChatService)
        ensures
            r.image_cache == Some(image_cache),
    {
        ChatService { image_cache: Some(image_cache) }
    }

    /// The user's avatar at time `now` (see `avatar_outcome`); nothing, and
    /// no change, without a cache or a picture.
    pub fn process_user_avatar_at(&mut self, user: &User, now: u64) -> (r: Option<CachedImage>)
        ensures
            old(self).image_cache is None || user.profile_pic is None ==> r is None && *final(self) == *old(self),
            old(self).image_cache is Some && user.profile_pic is Some ==> {
                &&& final(self).image_cache is Some
                &&& final(self).image_cache->0.settings() == old(self).image_cache->0.settings()
                &&& avatar_outcome(old(self).image_cache->0@, user.id, user.profile_pic->0@, now, opt_image(r),
                    final(self).image_cache->0@)
            },
    {
        if self.image_cache.is_none() || user.profile_pic.is_none() {
            return None;
        }
        let mut cache = self.image_cache.take().unwrap();
        let ghost c0 = cache@;
        let key = ImageCacheKey::user_avatar(user.id);
        let result = match cache.get_at(&key, now) {
            Ok(Some(img)) => Some(img),
            _ => {
                let pic = user.profile_pic.as_ref().unwrap();
                match cache.process_and_cache_base64_at(key, pic.as_str(), Some(AVATAR_TTL_SECONDS), now) {
                    Ok(img) => Some(img),
                    Err(_) => None,
                }
            },
        };
        self.image_cache = Some(cache);
        result
    }

    /// The user's avatar now (see `avatar_outcome`).
    pub fn process_user_avatar(&mut self, user: &User) -> (r: Option<CachedImage>)
        ensures
            old(self).image_cache is None || user.profile_pic is None ==> r is None && *final(self) == *old(self),
            old(self).image_cache is Some && user.profile_pic is Some ==> {
                &&& final(self).image_cache is Some
                &&& final(self).image_cache->0.settings() == old(self).image_cache->0.settings()
                &&& exists|now: u64| #[trigger] avatar_outcome(old(self).image_cache->0@, user.id,
                    user.profile_pic->0@, now, opt_image(r), final(self).image_cache->0@)
            },
    {
        let now = unix_time_now();
        self.process_user_avatar_at(user, now)
    }

    /// Each user's identifier with their avatar, in order, processed one
    /// after the other with `process_user_avatar`: the cache goes through
    /// one state per user, each step an `avatar_outcome` (at the time of
    /// that request) for a user with a picture and no change for one
    /// without.
    pub fn batch_process_avatars(&mut self, users: &[User]) -> (r: Vec<(u128, Option<CachedImage>)>)
        ensures
            r@.len() == users@.len(),
            forall|i: int| 0 <= i < r@.len() ==> (#[trigger] r@[i]).0 == users@[i].id,
            forall|i: int| 0 <= i < r@.len() ==> (old(self).image_cache is None || users@[i].profile_pic is None)
                ==> (#[trigger] r@[i]).1 is None,
            old(self).image_cache is None ==> *final(self) == *old(self),
            old(self).image_cache is Some ==> final(self).image_cache is Some
                && final(self).image_cache->0.settings() == old(self).image_cache->0.settings()
                && exists|states: Seq<Map<CacheKey, ImageView>>, times: Seq<u64>| #[trigger] avatar_chain(
                    states, times, users@, r@, old(self).image_cache->0@, final(self).image_cache->0@),
    {
        let mut r: Vec<(u128, Option<CachedImage>)> = Vec::new();
        let ghost mut states: Seq<Map<CacheKey, ImageView>> = seq![];
        let ghost mut times: Seq<u64> = seq![];
        proof {
            if old(self).image_cache is Some {
                states = seq![old(self).image_cache->0@];
            }
        }
        let mut i: usize = 0;
        while i < users.len()
            invariant
                i <= users@.len(),
                r@.len() == i,
                forall|j: int| 0 <= j < i ==> (#[trigger] r@[j]).0 == users@[j].id,
                forall|j: int| 0 <= j < i ==> (old(self).image_cache is None || users@[j].profile_pic is None)
                    ==> (#[trigger] r@[j]).1 is None,
                old(self).image_cache is None ==> *self == *old(self),
                old(self).image_cache is Some ==> self.image_cache is Some
                    && self.image_cache->0.settings() == old(self).image_cache->0.settings()
                    && avatar_chain(states, times, users@.take(i as int), r@, old(self).image_cache->0@,
                        self.image_cache->0@),
            decreases users.len() - i,
        {
            let ghost before = self.image_cache;
            let img = self.process_user_avatar(&users[i]);
            proof {
                if old(self).image_cache is Some {
                    let b = before->0@;
                    let a = self.image_cache->0@;
                    let t: u64 = if users@[i as int].profile_pic is Some {
                        choose|now: u64| #[trigger] avatar_outcome(b, users@[i as int].id,
                            users@[i as int].profile_pic->0@, now, opt_image(img), a)
                    } else {
                        0
                    };
                    states = states.push(a);
                    times = times.push(t);
                }
            }
            let ghost r0 = r@;
            r.push((users[i].id, img));
            proof {
                if old(self).image_cache is Some {
                    let u = users@.take(i + 1);
                    assert(u.drop_last() =~= users@.take(i as int));
                    assert(r@.drop_last() =~= r0);
                    lemma_avatar_chain_push(states.drop_last(), times.drop_last(), users@.take(i as int), r0,
                        old(self).image_cache->0@, states.drop_last().last(), users@[i as int], r@.last(),
                        times.last(), states.last());
                    assert(states.drop_last().push(states.last()) =~= states);
                    assert(times.drop_last().push(times.last()) =~= times);
                    assert(users@.take(i as int).push(users@[i as int]) =~= u);
                    assert(r0.push(r@.last()) =~= r@);
                }
            }
            i = i + 1;
        }
        proof {
            assert(users@.take(users@.len() as int) =~= users@);
        }
        r
    }

    /// The cache statistics, if there is a cache (see `ImageCache::stats`).
    pub fn get_cache_stats(&self) -> (r: Option<ImageCacheStats>)
        ensures
            r is Some <==> self.image_cache is Some,
            r matches Some(st) ==> st.total_entries == self.image_cache->0@.len()
                && st.total_size_bytes == self.image_cache->0.size_counter()
                && (exists|now: u64| st.expired_entries == #[trigger] self.image_cache->0.expired_count_at(now))
                && st.total_access_count == if self.image_cache->0.access_sum() > u64::MAX {
                    u64::MAX as nat
                } else {
                    self.image_cache->0.access_sum()
                },
    {
        match &self.image_cache {
            Some(c) => match c.stats() {
                Ok(st) => Some(st),
                Err(_) => None,
            },
            None => None,
        }
    }

    /// Drops the expired images of the cache, if there is one, taking each
    /// one's size off its byte count, and returns how many were dropped.
    pub fn cleanup_cache(&mut self) -> (r: Option<usize>)
        ensures
            cleaned(*old(self), *final(self), r),
    {
        if self.image_cache.is_none() {
            return None;
        }
        let mut cache = self.image_cache.take().unwrap();
        let r = match cache.cleanup_expired() {
            Ok(n) => Some(n),
            Err(_) => None,
        };
        self.image_cache = Some(cache);
        r
    }

    /// Decodes and caches, for two hours, the pictures of the people of the
    /// conversation shown (the channel's users or the direct-message
    /// list) that have no live image in the cache: the cache goes through
    /// one state per person (see `preload_step`).
    #[verifier::spinoff_prover]
    pub fn preload_conversation_images(&mut self, chat_state: &ChatState)
        ensures
            preloaded(*old(self), *final(self), *chat_state),
    {
        if self.image_cache.is_none() {
            return;
        }
        let users = match chat_state.current_chat_target {
            Some(ChatTarget::Channel { .. }) => &chat_state.channel_userlist,
            Some(ChatTarget::DM { .. }) => &chat_state.dm_user_list,
            None => return,
        };
        let mut cache = self.image_cache.take().unwrap();
        let ghost settings = cache.settings();
        let ghost mut maps: Seq<Map<CacheKey, ImageView>> = seq![cache@];
        let ghost mut counts: Seq<usize> = seq![cache.size_counter()];
        let ghost mut checked: Seq<u64> = seq![];
        let ghost mut made: Seq<u64> = seq![];
        let ghost first = cache@;
        let ghost first_count = cache.size_counter();
        let mut i: usize = 0;
        while i < users.len()
            invariant
                i <= users@.len(),
                users@ == conversation_people(*chat_state),
                cache.settings() == settings,
                preload_chain(maps, counts, checked, made, settings, users@.take(i as int), first, first_count,
                    cache@, cache.size_counter()),
            decreases users.len() - i,
        {
            let ghost b = cache@;
            let ghost bc = cache.size_counter();
            let ghost mut t1: u64 = 0;
            let ghost mut t2: u64 = 0;
            match &users[i].profile_pic {
                Some(pic) => {
                    let key = ImageCacheKey::user_avatar(users[i].id);
                    let live = cache.contains_key(&key);
                    proof {
                        t1 = choose|now: u64| live == #[trigger] live_at(b, key@, now);
                    }
                    if !live {
                        let res = cache.process_and_cache_base64(key, pic.as_str(), Some(AVATAR_TTL_SECONDS));
                        proof {
                            t2 = choose|now: u64| #[trigger] cache_data_url_outcome(b, bc, settings,
                                CacheKey::UserAvatar(users@[i as int].id), pic@, Some(AVATAR_TTL_SECONDS), now,
                                cache_result(res), cache@, cache.size_counter());
                        }
                    }
                },
                None => {},
            }
            proof {
                assert(preload_step(b, bc, settings, users@[i as int], t1, t2, cache@, cache.size_counter()));
                lemma_preload_chain_push(maps, counts, checked, made, settings, users@.take(i as int), first,
                    first_count, b, bc, users@[i as int], t1, t2, cache@, cache.size_counter());
                assert(users@.take(i as int).push(users@[i as int]) =~= users@.take(i + 1));
                maps = maps.push(cache@);
                counts = counts.push(cache.size_counter());
                checked = checked.push(t1);
                made = made.push(t2);
            }
            i = i + 1;
        }
        proof {
            assert(users@.take(users@.len() as int) =~= users@);
        }
        self.image_cache = Some(cache);
    }

    /// Whether the conversation shown wants older messages (see
    /// `wants_more_history`).
    pub fn should_fetch_more_messages_enhanced(chat_state: &ChatState, max_rows: usize, prefetch_threshold: usize) -> (r: bool)
        requires
            max_rows <= usize::MAX / 2,
        ensures
            r == should_fetch_spec(*chat_state, max_rows as nat, prefetch_threshold as nat),
    {
        match chat_state.current_chat_target {
            Some(ChatTarget::Channel { channel_id, .. }) => {
                let complete = match chat_state.channel_history_complete.get(&channel_id) {
                    Some(b) => *b,
                    None => false,
                };
                wants_more(
                    chat_state.chat_messages.len(),
                    chat_state.chat_scroll_offset,
                    max_rows,
                    prefetch_threshold,
                    complete,
                )
            },
            Some(ChatTarget::DM { .. }) => wants_more(
                chat_state.dm_messages.len(),
                chat_state.chat_scroll_offset,
                max_rows,
                prefetch_threshold,
                chat_state.dm_history_complete,
            ),
            None => false,
        }
    }

    /// `should_fetch_more_messages_enhanced` with a threshold of 10 rows.
    pub fn should_fetch_more_messages(chat_state: &ChatState, max_rows: usize) -> (r: bool)
        requires
            max_rows <= usize::MAX / 2,
        ensures
            r == should_fetch_spec(*chat_state, max_rows as nat, 10),
    {
        Self::should_fetch_more_messages_enhanced(chat_state, max_rows, 10)
    }

    /// The names of the users that start, ignoring case, with the mention
    /// being typed at the end of the input, sorted; none when no mention is
    /// being typed.
    pub fn get_mention_suggestions(input: &str, users: &[User]) -> (r: Vec<String>)
        ensures
            views(r@) == mention_suggestions_spec(input@, users@),
    {
        let s = chars_of(input);
        match typed_word_of(&s, '@', true) {
            None => Vec::new(),
            Some(w) => {
                let prefix = to_lowercase(string_of(w.as_slice()).as_str());
                let pc = chars_of(prefix.as_str());
                let mut found: Vec<String> = Vec::new();
                let mut i: usize = 0;
                while i < users.len()
                    invariant
                        i <= users@.len(),
                        pc@ == lowercase(w@),
                        views(found@) == names_with_prefix(users@.take(i as int), pc@),
                    decreases users.len() - i,
                {
                    proof {
                        assert(users@.take(i + 1).drop_last() =~= users@.take(i as int));
                        assert(users@.take(i + 1).last() == users@[i as int]);
                    }
                    let name = to_lowercase(users[i].username.as_str());
                    if starts_with(chars_of(name.as_str()).as_slice(), pc.as_slice()) {
                        found.push(users[i].username.clone());
                        assert(views(found@) =~= names_with_prefix(users@.take(i as int), pc@).push(users@[i as int].username@));
                    }
                    i = i + 1;
                }
                assert(users@.take(users@.len() as int) =~= users@);
                sort_string_vec(&found)
            },
        }
    }

    /// The input with the last `@prefix` replaced by `@suggestion` and a
    /// space.
    pub fn apply_mention_suggestion(input: &str, suggestion: &str, prefix: &str) -> (r: String)
        ensures
            r@ == replace_last_word(input@, '@', prefix@, seq!['@'] + suggestion@),
    {
        let mut rep: Vec<char> = Vec::new();
        rep.push('@');
        let sc = chars_of(suggestion);
        crate::text::push_all(&mut rep, sc.as_slice());
        assert(rep@ =~= seq!['@'] + suggestion@);
        replace_last(input, '@', prefix, &rep)
    }

    /// The emojis with a shortcode that starts, ignoring case, with the
    /// shortcode being typed after the last `:`, sorted, without repeats,
    /// at most ten; none when no shortcode is being typed.
    pub fn get_emoji_suggestions(input: &str) -> (r: Vec<String>)
        ensures
            views(r@) == emoji_suggestions_spec(input@),
    {
        let s = chars_of(input);
        match typed_word_of(&s, ':', false) {
            None => Vec::new(),
            Some(w) => {
                let prefix = to_lowercase(string_of(w.as_slice()).as_str());
                let pc = chars_of(prefix.as_str());
                let n = emoji_count();
                proof {
                    lemma_emoji_table_len(n as nat);
                }
                let mut found: Vec<String> = Vec::new();
                let mut i: usize = 0;
                while i < n
                    invariant
                        i <= n,
                        emoji_table_ends_at(n as nat),
                        pc@ == lowercase(w@),
                        views(found@) == emoji_hits(i as nat, pc@),
                    decreases n - i,
                {
                    assert(emoji_entry(i as int) is Some);
                    let entry = emoji_at(i);
                    match entry {
                        Some((e, codes)) => {
                            let ghost cv = views(codes@);
                            let mut j: usize = 0;
                            let mut hit = false;
                            while j < codes.len() && !hit
                                invariant
                                    j <= codes@.len(),
                                    cv == views(codes@),
                                    hit == any_code_prefixed(cv.take(j as int), pc@),
                                decreases codes.len() - j,
                            {
                                proof {
                                    assert(cv.take(j + 1).drop_last() =~= cv.take(j as int));
                                }
                                let lc = to_lowercase(codes[j].as_str());
                                if starts_with(chars_of(lc.as_str()).as_slice(), pc.as_slice()) {
                                    hit = true;
                                }
                                j = j + 1;
                            }
                            proof {
                                if !hit {
                                    assert(cv.take(j as int) =~= cv);
                                } else {
                                    lemma_any_prefixed_extends(cv, pc@, j as int);
                                }
                            }
                            if hit {
                                found.push(e);
                                assert(views(found@) =~= emoji_hits(i as nat, pc@).push(e@));
                            }
                        },
                        None => {},
                    }
                    i = i + 1;
                }
                let sorted = sort_string_vec(&found);
                let mut d = dedup_string_vec(&sorted);
                if d.len() > 10 {
                    d.truncate(10);
                }
                proof {
                    if views(d@).len() <= 10 {
                    }
                }
                assert(views(d@) =~= emoji_suggestions_spec(input@));
                d
            },
        }
    }

    /// Whether the input contains a complete shortcode (such as `:smile:`)
    /// that names an emoji: the emoji of the first such shortcode, with the
    /// byte offsets of its start and end; none when no complete shortcode
    /// names an emoji.
    pub fn check_for_exact_emoji_match(input: &str) -> (r: Option<(String, usize, usize)>)
        ensures
            r is None <==> exact_emoji(input@) is None,
            r matches Some((e, a, b)) ==> exact_emoji(input@) == Some((e@, a as int, b as int)),
    {
        match find_exact_emoji(input) {
            Some((e, _ca, _cb, ba, bb)) => Some((e, ba, bb)),
            None => None,
        }
    }


    /// The display lines of the conversation shown: each message with its
    /// author's name, colour and picture, looked up by identifier in the
    /// conversation's user list (or the current user for their own direct
    /// messages); an unknown author shows as `User#` and the first eight
    /// digits of the identifier, in grey, without a picture.
    pub fn build_message_list(chat_state: &ChatState, current_user: Option<&User>) -> (r: Vec<ChatMessageWithMeta>)
        ensures
            r@.len() == message_lines(*chat_state, match current_user { Some(u) => Some(*u), None => None }).len(),
            forall|i: int| 0 <= i < r@.len() ==> #[trigger] r@[i]@
                == message_lines(*chat_state, match current_user { Some(u) => Some(*u), None => None })[i],
    {
        let ghost me = match current_user { Some(u) => Some(*u), None => None };
        let mut r: Vec<ChatMessageWithMeta> = Vec::new();
        match chat_state.current_chat_target {
            Some(ChatTarget::Channel { .. }) => {
                let mut i: usize = 0;
                while i < chat_state.chat_messages.len()
                    invariant
                        i <= chat_state.chat_messages@.len(),
                        chat_state.current_chat_target matches Some(ChatTarget::Channel { .. }),
                        r@.len() == i,
                        forall|j: int| 0 <= j < i ==> #[trigger] r@[j]@
                            == channel_line(chat_state.channel_userlist@, chat_state.chat_messages@[j]),
                    decreases chat_state.chat_messages.len() - i,
                {
                    let m = &chat_state.chat_messages[i];
                    let line = match find_user_in(&chat_state.channel_userlist, m.sent_by) {
                        Some(u) => line_by(u, &m.content, m.timestamp),
                        None => line_unknown(m.sent_by, &m.content, m.timestamp),
                    };
                    r.push(line);
                    i = i + 1;
                }
            },
            Some(ChatTarget::DM { .. }) => {
                let mut i: usize = 0;
                while i < chat_state.dm_messages.len()
                    invariant
                        i <= chat_state.dm_messages@.len(),
                        chat_state.current_chat_target matches Some(ChatTarget::DM { .. }),
                        me == match current_user { Some(u) => Some(*u), None => None },
                        r@.len() == i,
                        forall|j: int| 0 <= j < i ==> #[trigger] r@[j]@
                            == dm_line(chat_state.dm_user_list@, me, chat_state.dm_messages@[j]),
                    decreases chat_state.dm_messages.len() - i,
                {
                    let m = &chat_state.dm_messages[i];
                    let line = match current_user {
                        Some(u) => if m.from != u.id {
                            match find_user_in(&chat_state.dm_user_list, m.from) {
                                Some(v) => line_by(v, &m.content, m.timestamp),
                                None => line_unknown(m.from, &m.content, m.timestamp),
                            }
                        } else {
                            line_by(u, &m.content, m.timestamp)
                        },
                        None => line_unknown(m.from, &m.content, m.timestamp),
                    };
                    r.push(line);
                    i = i + 1;
                }
            },
            None => {},
        }
        r
    }

    /// The request for the avatars of the users of the conversation lists
    /// that have no picture: at most 20 distinct identifiers, all of them
    /// when there are no more; none when every user has a picture.
    pub fn request_missing_avatars(&self, chat_state: &ChatState) -> (r: Option<ClientMessage>)
        ensures
            r is None <==> forall|id: u128| !missing_avatar(*chat_state, id),
            r matches Some(m) ==> m matches ClientMessage::GetUserAvatars { user_ids } && {
                &&& 0 < user_ids@.len() <= 20
                &&& user_ids@.no_duplicates()
                &&& forall|k: int| 0 <= k < user_ids@.len() ==> missing_avatar(*chat_state, #[trigger] user_ids@[k])
                &&& user_ids@.len() < 20 ==> forall|id: u128| missing_avatar(*chat_state, id) ==> user_ids@.contains(id)
            },
    {
        let mut ids: Vec<u128> = Vec::new();
        let lists: [&Vec<User>; 2] = [&chat_state.channel_userlist, &chat_state.dm_user_list];
        let mut li: usize = 0;
        while li < 2
            invariant
                li <= 2,
                lists@ == seq![&chat_state.channel_userlist, &chat_state.dm_user_list],
                ids@.len() <= 20,
                ids@.no_duplicates(),
                forall|k: int| 0 <= k < ids@.len() ==> missing_avatar(*chat_state, #[trigger] ids@[k]),
                ids@.len() < 20 ==> li >= 1 ==> forall|id: u128| lacks_avatar(chat_state.channel_userlist@, id) ==> ids@.contains(id),
                ids@.len() < 20 ==> li >= 2 ==> forall|id: u128| lacks_avatar(chat_state.dm_user_list@, id) ==> ids@.contains(id),
                ids@.len() == 0 ==> forall|id: u128| li >= 1 ==> !lacks_avatar(chat_state.channel_userlist@, id),
                ids@.len() == 0 ==> forall|id: u128| li >= 2 ==> !lacks_avatar(chat_state.dm_user_list@, id),
            decreases 2 - li,
        {
            let users = lists[li];
            let ghost us = users@;
            let mut i: usize = 0;
            while i < users.len()
                invariant
                    i <= us.len(),
                    us == users@,
                    li < 2,
                    users == lists@[li as int],
                    lists@ == seq![&chat_state.channel_userlist, &chat_state.dm_user_list],
                    ids@.len() <= 20,
                    ids@.no_duplicates(),
                    forall|k: int| 0 <= k < ids@.len() ==> missing_avatar(*chat_state, #[trigger] ids@[k]),
                    ids@.len() < 20 ==> li >= 1 ==> forall|id: u128| lacks_avatar(chat_state.channel_userlist@, id) ==> ids@.contains(id),
                    ids@.len() < 20 ==> forall|j: int| 0 <= j < i && us[j].profile_pic is None ==> ids@.contains(#[trigger] us[j].id),
                    ids@.len() == 0 ==> forall|id: u128| li >= 1 ==> !lacks_avatar(chat_state.channel_userlist@, id),
                    ids@.len() == 0 ==> forall|j: int| 0 <= j < i ==> (#[trigger] us[j]).profile_pic is Some,
                decreases us.len() - i,
            {
                if users[i].profile_pic.is_none() && ids.len() < 20 {
                    let id = users[i].id;
                    let mut present = false;
                    let mut k: usize = 0;
                    while k < ids.len()
                        invariant
                            k <= ids@.len(),
                            present <==> exists|j: int| 0 <= j < k && ids@[j] == id,
                        decreases ids.len() - k,
                    {
                        if ids[k] == id {
                            present = true;
                        }
                        k = k + 1;
                    }
                    proof {
                        assert(missing_avatar(*chat_state, id)) by {
                            if li == 0 {
                                assert(us == chat_state.channel_userlist@);
                                assert(chat_state.channel_userlist@[i as int].id == id);
                            } else {
                                assert(us == chat_state.dm_user_list@);
                                assert(chat_state.dm_user_list@[i as int].id == id);
                            }
                        }
                    }
                    let ghost before = ids@;
                    if !present {
                        ids.push(id);
                        proof {
                            assert forall|x: u128| before.contains(x) implies ids@.contains(x) by {
                                let j = choose|j: int| 0 <= j < before.len() && before[j] == x;
                                assert(ids@[j] == x);
                            }
                            assert(ids@[ids@.len() - 1] == id);
                            assert forall|a: int, b: int| 0 <= a < b < ids@.len() implies ids@[a] != ids@[b] by {
                                if b == ids@.len() - 1 {
                                    assert(before[a] == ids@[a]);
                                }
                            }
                        }
                    }
                    assert(ids@.contains(id)) by {
                        if present {
                            let j = choose|j: int| 0 <= j < k && ids@[j] == id;
                        } else {
                            assert(ids@[ids@.len() - 1] == id);
                        }
                    }
                    proof {
                        if ids@.len() < 20 && li >= 1 {
                            assert forall|x: u128| lacks_avatar(chat_state.channel_userlist@, x) implies ids@.contains(x) by {
                                assert(before.contains(x));
                            }
                        }
                        assert forall|j: int| 0 <= j < i + 1 && us[j].profile_pic is None && ids@.len() < 20
                            implies ids@.contains(#[trigger] us[j].id) by {
                            if j < i {
                                assert(before.contains(us[j].id));
                            }
                        }
                    }
                }
                i = i + 1;
            }
            proof {
                if ids@.len() < 20 {
                    assert forall|id: u128| lacks_avatar(us, id) implies ids@.contains(id) by {
                        let j = choose|j: int| 0 <= j < us.len() && #[trigger] us[j].id == id && us[j].profile_pic is None;
                        assert(ids@.contains(us[j].id));
                    }
                }
                if ids@.len() == 0 {
                    assert forall|id: u128| !lacks_avatar(us, id) by {
                        if lacks_avatar(us, id) {
                            let j = choose|j: int| 0 <= j < us.len() && #[trigger] us[j].id == id && us[j].profile_pic is None;
                            assert(us[j].profile_pic is Some);
                        }
                    }
                }
                if li == 0 {
                    assert(us == chat_state.channel_userlist@);
                } else {
                    assert(us == chat_state.dm_user_list@);
                }
            }
            li = li + 1;
        }
        if ids.len() == 0 {
            None
        } else {
            assert(missing_avatar(*chat_state, ids@[0]));
            proof {
                if ids@.len() < 20 {
                    assert forall|id: u128| missing_avatar(*chat_state, id) implies ids@.contains(id) by {
                        if lacks_avatar(chat_state.channel_userlist@, id) {
                        } else {
                        }
                    }
                }
            }
            Some(ClientMessage::GetUserAvatars { user_ids: ids })
        }
    }

    /// The input with the last `:prefix` replaced by the emoji and a space.
    pub fn apply_emoji_suggestion(input: &str, emoji: &str, prefix: &str) -> (r: String)
        ensures
            r@ == replace_last_word(input@, ':', prefix@, emoji@),
    {
        let rep = chars_of(emoji);
        replace_last(input, ':', prefix, &rep)
    }
}

impl Default for ChatService {
    fn default() -> (r: ChatService)
        ensures
            r.image_cache is None,
    {
        ChatService::new()
    }
}

proof fn lemma_any_prefixed_extends(cv: Seq<Seq<char>>, p: Seq<char>, j: int)
    requires
        0 <= j <= cv.len(),
        any_code_prefixed(cv.take(j), p),
    ensures
        any_code_prefixed(cv, p),
    decreases cv.len() - j,
{
    if j < cv.len() {
        assert(cv.take(j + 1).drop_last() =~= cv.take(j));
        lemma_any_prefixed_extends(cv, p, j + 1);
    } else {
        assert(cv.take(j) =~= cv);
    }
}

} // verus!
