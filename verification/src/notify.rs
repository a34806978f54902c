//! Desktop notifications: what each kind of event shows. Showing them,
//! and turning a profile picture into an icon file, is the front end's
//! work.

use vstd::prelude::*;
use vstd::utf8::encode_utf8;
use crate::services::chat::{byte_offset, char_index_at_byte, lemma_byte_offset_strict};
use crate::text::{char_alphanumeric, chars_of, concat_str, is_alphanumeric, slice_chars, string_of, utf8_len_exceeds};

verus! {

/// How insistent a notification is.
#[derive(Debug, Clone, Copy, PartialEq, Eq, Structural)]
pub enum NotificationUrgency {
    Low,
    Normal,
    Critical,
}

/// A desktop notification to show. The icon is a file path, or a profile
/// picture (data URL) with its owner's name, from which the front end makes
/// a round icon.
#[derive(Debug)]
pub struct DesktopNotification {
    pub title: String,
    pub message: String,
    pub urgency: NotificationUrgency,
    pub icon_path: Option<String>,
    pub icon_picture: Option<(String, String)>,
}

/// A preview can be cut: text longer than 100 bytes has a character
/// boundary at byte 97.
pub open spec fn preview_ok(s: Seq<char>) -> bool {
    encode_utf8(s).len() > 100 ==> exists|k: int| 0 <= k <= s.len() && #[trigger] byte_offset(s, k) == 97
}

/// The preview of a message: text longer than 100 bytes is cut to its
/// first 97 bytes and `...` is added.
pub open spec fn preview_text(s: Seq<char>) -> Seq<char> {
    if encode_utf8(s).len() > 100 {
        s.take(choose|k: int| 0 <= k <= s.len() && #[trigger] byte_offset(s, k) == 97) + "..."@
    } else {
        s
    }
}

/// Whether the text can be previewed (see `preview_ok`).
pub fn preview_fits(s: &str) -> (r: bool)
    ensures
        r == preview_ok(s@),
{
    let c = chars_of(s);
    if !utf8_len_exceeds(c.as_slice(), 100) {
        return true;
    }
    match char_index_at_byte(&c, 97) {
        Some(_) => true,
        None => false,
    }
}

/// The preview of a message (see `preview_text`).
pub fn preview(s: &str) -> (r: String)
    requires
        preview_ok(s@),
    ensures
        r@ == preview_text(s@),
{
    let c = chars_of(s);
    if !utf8_len_exceeds(c.as_slice(), 100) {
        return s.to_string();
    }
    match char_index_at_byte(&c, 97) {
        Some(k) => {
            proof {
                let j = choose|j: int| 0 <= j <= s@.len() && #[trigger] byte_offset(s@, j) == 97;
                if j < k {
                    lemma_byte_offset_strict(s@, j, k as int);
                } else if k < j {
                    lemma_byte_offset_strict(s@, k as int, j);
                }
                reveal_strlit("...");
            }
            let mut v = slice_chars(&c, 0, k);
            v.push('.');
            v.push('.');
            v.push('.');
            assert(v@ =~= s@.take(k as int) + "..."@);
            string_of(v.as_slice())
        },
        None => {
            assert(false);
            s.to_string()
        },
    }
}

/// The picture of an icon, with its owner.
pub open spec fn picture_icon(pic: Option<String>, owner: Seq<char>) -> Option<(Seq<char>, Seq<char>)> {
    match pic {
        Some(p) => Some((p@, owner)),
        None => None,
    }
}

/// The view of a notification's picture icon.
pub open spec fn icon_view(icon: Option<(String, String)>) -> Option<(Seq<char>, Seq<char>)> {
    match icon {
        Some((p, o)) => Some((p@, o@)),
        None => None,
    }
}

/// Desktop notifications.
pub struct DesktopNotificationService;

impl DesktopNotificationService {
    /// A request for a notification with the default icon; queued on the
    /// application, it is shown only when desktop notifications are on
    /// (see `App::take_effects`).
    pub fn show_notification(title: &str, message: &str, urgency: NotificationUrgency) -> (r: DesktopNotification)
        ensures
            r.title@ == title@,
            r.message@ == message@,
            r.urgency == urgency,
            r.icon_path is None,
            r.icon_picture is None,
    {
        Self::show_notification_with_icon(title, message, urgency, None)
    }

    /// A request for a notification with the icon file, if any (shown, like
    /// every request, only when desktop notifications are on).
    pub fn show_notification_with_icon(title: &str, message: &str, urgency: NotificationUrgency, icon_path: Option<String>) -> (r: DesktopNotification)
        ensures
            r.title@ == title@,
            r.message@ == message@,
            r.urgency == urgency,
            r.icon_path == icon_path,
            r.icon_picture is None,
    {
        DesktopNotification {
            title: title.to_string(),
            message: message.to_string(),
            urgency,
            icon_path,
            icon_picture: None,
        }
    }

    /// A direct message: the sender as title, the preview of the message,
    /// normal urgency, the sender's picture as icon.
    pub fn show_dm_notification(from_username: &str, message_preview: &str, sender_profile_pic: Option<&String>) -> (r: DesktopNotification)
        requires
            preview_ok(message_preview@),
        ensures
            r.title@ == from_username@,
            r.message@ == preview_text(message_preview@),
            r.urgency == NotificationUrgency::Normal,
            r.icon_path is None,
            icon_view(r.icon_picture) == picture_icon(match sender_profile_pic { Some(p) => Some(*p), None => None }, from_username@),
    {
        let icon = match sender_profile_pic {
            Some(p) => Some((p.clone(), from_username.to_string())),
            None => None,
        };
        DesktopNotification {
            title: from_username.to_string(),
            message: preview(message_preview),
            urgency: NotificationUrgency::Normal,
            icon_path: None,
            icon_picture: icon,
        }
    }

    /// A mention: `Mentioned by` and the sender as title, the preview of
    /// the message, normal urgency, the sender's picture as icon.
    pub fn show_mention_notification(from_username: &str, content: &str, sender_profile_pic: Option<&str>) -> (r: DesktopNotification)
        requires
            preview_ok(content@),
        ensures
            r.title@ == "Mentioned by "@ + from_username@,
            r.message@ == preview_text(content@),
            r.urgency == NotificationUrgency::Normal,
            r.icon_path is None,
            sender_profile_pic is None ==> r.icon_picture is None,
            sender_profile_pic matches Some(p) ==> icon_view(r.icon_picture) == Some((p@, from_username@)),
    {
        let icon = match sender_profile_pic {
            Some(p) => Some((p.to_string(), from_username.to_string())),
            None => None,
        };
        DesktopNotification {
            title: concat_str("Mentioned by ", from_username),
            message: preview(content),
            urgency: NotificationUrgency::Normal,
            icon_path: None,
            icon_picture: icon,
        }
    }

    /// A server invitation: `<user> invited you to join '<server>'`.
    pub fn show_server_invite_notification(from_username: &str, server_name: &str) -> (r: DesktopNotification)
        ensures
            r.title@ == "Server Invite Received"@,
            r.message@ == from_username@ + " invited you to join '"@ + server_name@ + "'"@,
            r.urgency == NotificationUrgency::Normal,
            r.icon_path is None,
            r.icon_picture is None,
    {
        let a = concat_str(from_username, " invited you to join '");
        let b = concat_str(a.as_str(), server_name);
        let m = concat_str(b.as_str(), "'");
        Self::show_notification("Server Invite Received", m.as_str(), NotificationUrgency::Normal)
    }

    /// Information, titled `Nexus`, of low urgency.
    pub fn show_info_notification(message: &str) -> (r: DesktopNotification)
        ensures
            r.title@ == "Nexus"@,
            r.message@ == message@,
            r.urgency == NotificationUrgency::Low,
            r.icon_path is None,
            r.icon_picture is None,
    {
        Self::show_notification("Nexus", message, NotificationUrgency::Low)
    }

    /// An error, titled `Nexus - Error`, of critical urgency.
    pub fn show_error_notification(message: &str) -> (r: DesktopNotification)
        ensures
            r.title@ == "Nexus - Error"@,
            r.message@ == message@,
            r.urgency == NotificationUrgency::Critical,
            r.icon_path is None,
            r.icon_picture is None,
    {
        Self::show_notification("Nexus - Error", message, NotificationUrgency::Critical)
    }
}

/// The characters of a name that may stand in a file name: letters,
/// digits and `_`, in order.
pub open spec fn file_name_chars(s: Seq<char>) -> Seq<char>
    decreases s.len(),
{
    if s.len() == 0 {
        s
    } else if char_alphanumeric(s.last()) || s.last() == '_' {
        file_name_chars(s.drop_last()).push(s.last())
    } else {
        file_name_chars(s.drop_last())
    }
}

/// The part of a user name used in the name of an icon file: its letters,
/// digits and `_`, at most the first twenty of them.
pub open spec fn safe_name(s: Seq<char>) -> Seq<char> {
    let f = file_name_chars(s);
    if f.len() <= 20 { f } else { f.take(20) }
}

/// The part of a user name used in the name of an icon file (see
/// `safe_name`).
pub fn safe_file_name(username: &str) -> (r: String)
    ensures
        r@ == safe_name(username@),
{
    let s = chars_of(username);
    let mut kept: Vec<char> = Vec::new();
    let mut i: usize = 0;
    assert(s@.take(0) =~= Seq::<char>::empty());
    while i < s.len()
        invariant
            i <= s@.len(),
            kept@ == file_name_chars(s@.take(i as int)),
        decreases s.len() - i,
    {
        let c = s[i];
        assert(s@.take(i as int + 1).drop_last() =~= s@.take(i as int));
        assert(s@.take(i as int + 1).last() == c);
        if is_alphanumeric(c) || c == '_' {
            kept.push(c);
        }
        i = i + 1;
    }
    assert(s@.take(s@.len() as int) =~= s@);
    if kept.len() > 20 {
        let first = slice_chars(&kept, 0, 20);
        assert(first@ =~= kept@.take(20));
        string_of(first.as_slice())
    } else {
        string_of(kept.as_slice())
    }
}

} // verus!
