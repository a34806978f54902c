//! Validation and parsing of chat messages.

use vstd::prelude::*;
use vstd::utf8::encode_utf8;
use crate::text::{
    char_views, chars_of, lowercase, mentions, slice_chars, split_whitespace_chars, string_of,
    to_lowercase, trim, trim_chars, utf8_len_exceeds, views, words,
};

verus! {

broadcast use vstd::string::group_string_axioms;

/// The longest message accepted, in UTF-8 bytes.
pub const MAX_MESSAGE_BYTES: usize = 2000;

/// The pattern whose matches are mentions.
pub open spec fn mention_pattern() -> Seq<char> {
    "@([a-zA-Z0-9_]+)"@
}

/// `regex::Regex::new` and `Regex::captures_iter` with the mention pattern:
/// the text of the first group of each match, left to right, which for this
/// pattern is what `mentions` describes.
#[verifier::external_body]
fn regex_first_groups(pattern: &str, content: &str) -> (r: Vec<String>)
    requires
        pattern@ == mention_pattern(),
    ensures
        views(r@) == mentions(content@),
{
    let re = regex::Regex::new(pattern).unwrap();
    re.captures_iter(content).map(|cap| cap.get(1).unwrap().as_str().to_string()).collect()
}

/// Service for message validation and processing.
pub struct MessageService;

/// The outcome of `validate_message` on a message.
pub open spec fn message_is_valid(content: Seq<char>) -> bool {
    trim(content).len() > 0 && encode_utf8(trim(content)).len() <= 2000
}

/// The command that `parse_command` reads from a message: the text after a
/// leading `/`, split at white space.
pub open spec fn command_words(content: Seq<char>) -> Seq<Seq<char>> {
    words(trim(content).drop_first())
}

/// The message is a command: after trimming it starts with `/` and a word.
pub open spec fn is_command(content: Seq<char>) -> bool {
    trim(content).len() > 0 && trim(content)[0] == '/' && command_words(content).len() > 0
}

impl MessageService {
    /// Trims the message; refuses it when nothing is left or when it is
    /// longer than 2000 bytes.
    pub fn validate_message(content: &str) -> (r: Result<String, String>)
        ensures
            r is Ok <==> message_is_valid(content@),
            r matches Ok(s) ==> s@ == trim(content@),
            r matches Err(e) ==> (if trim(content@).len() == 0 {
                e@ == "Message cannot be empty"@
            } else {
                e@ == "Message too long (max 2000 characters)"@
            }),
    {
        let c = chars_of(content);
        let t = trim_chars(&c);
        if t.len() == 0 {
            return Err("Message cannot be empty".to_string());
        }
        if utf8_len_exceeds(t.as_slice(), MAX_MESSAGE_BYTES) {
            return Err("Message too long (max 2000 characters)".to_string());
        }
        Ok(string_of(&t))
    }

    /// A command such as `/accept`: the first word after the `/`, in lower
    /// case, and the words after it.
    pub fn parse_command(content: &str) -> (r: Option<(String, Vec<String>)>)
        ensures
            r is Some <==> is_command(content@),
            r matches Some((cmd, args)) ==> cmd@ == lowercase(command_words(content@)[0])
                && views(args@) == command_words(content@).drop_first(),
    {
        let c = chars_of(content);
        let t = trim_chars(&c);
        if t.len() == 0 || t[0] != '/' {
            return None;
        }
        let rest = slice_chars(&t, 1, t.len());
        assert(rest@ =~= trim(content@).drop_first());
        let parts = split_whitespace_chars(&rest);
        if parts.len() == 0 {
            return None;
        }
        let first = string_of(parts[0].as_slice());
        let cmd = to_lowercase(first.as_str());
        let mut args: Vec<String> = Vec::new();
        let mut i: usize = 1;
        while i < parts.len()
            invariant
                1 <= i <= parts.len(),
                char_views(parts@) == command_words(content@),
                views(args@) == char_views(parts@).subrange(1, i as int),
            decreases parts.len() - i,
        {
            let a = string_of(parts[i].as_slice());
            assert(a@ == char_views(parts@)[i as int]);
            let ghost old_args = views(args@);
            args.push(a);
            assert(views(args@) =~= old_args.push(a@));
            i = i + 1;
            assert(views(args@) =~= char_views(parts@).subrange(1, i as int));
        }
        assert(char_views(parts@).subrange(1, parts.len() as int) =~= char_views(parts@).drop_first());
        Some((cmd, args))
    }

    /// The names mentioned with `@name` in the message, in order.
    pub fn extract_mentions(content: &str) -> (r: Vec<String>)
        ensures
            views(r@) == mentions(content@),
    {
        regex_first_groups("@([a-zA-Z0-9_]+)", content)
    }
}

} // verus!
