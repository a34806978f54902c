//! The data the client exchanges with the server: users, forums, servers,
//! channels, messages, and the two message enums of the protocol.
//! Identifiers are the 128-bit values of the protocol's UUIDs.

use vstd::prelude::*;

verus! {

/// Terminal colours a user can pick or a widget can use.
#[derive(Clone, Copy, Debug, PartialEq, Eq, Structural)]
pub enum Color {
    Reset,
    Black,
    Red,
    Green,
    Yellow,
    Blue,
    Magenta,
    Cyan,
    Gray,
    DarkGray,
    LightRed,
    LightGreen,
    LightYellow,
    LightBlue,
    LightMagenta,
    LightCyan,
    White,
    Rgb(u8, u8, u8),
    Indexed(u8),
}

/// A user's standing on the server.
#[derive(Clone, Copy, Debug, PartialEq, Eq, Structural)]
pub enum UserRole {
    User,
    Moderator,
    Admin,
}

/// Whether a user is online.
#[derive(Clone, Copy, Debug, PartialEq, Eq, Structural)]
pub enum UserStatus {
    Connected,
    Away,
    Busy,
    Offline,
}

/// A user as the server describes it.
#[derive(Debug)]
pub struct User {
    pub id: u128,
    pub username: String,
    pub color: Color,
    pub role: UserRole,
    pub profile_pic: Option<String>,
    pub cover_banner: Option<String>,
    pub status: UserStatus,
}

/// A user's profile page.
#[derive(Debug)]
pub struct UserProfile {
    pub user_id: u128,
    pub username: String,
    pub bio: Option<String>,
    pub url1: Option<String>,
    pub url2: Option<String>,
    pub url3: Option<String>,
    pub location: Option<String>,
    pub profile_pic: Option<String>,
    pub cover_banner: Option<String>,
}

/// A post in a forum thread; `reply_to` names the post it answers.
#[derive(Debug)]
pub struct Post {
    pub id: u128,
    pub author: User,
    pub content: String,
    pub timestamp: i64,
    pub reply_to: Option<u128>,
}

/// A forum thread and its posts, oldest first.
#[derive(Debug)]
pub struct Thread {
    pub id: u128,
    pub title: String,
    pub author: User,
    pub posts: Vec<Post>,
    pub timestamp: i64,
}

/// A forum and its threads.
#[derive(Debug)]
pub struct Forum {
    pub id: u128,
    pub name: String,
    pub description: String,
    pub threads: Vec<Thread>,
}

/// The part of a user that the lightweight forum listing carries.
#[derive(Debug)]
pub struct UserInfo {
    pub id: u128,
    pub username: String,
    pub color: Color,
    pub role: UserRole,
    pub status: UserStatus,
}

/// A post of the lightweight forum listing.
#[derive(Debug)]
pub struct PostLightweight {
    pub id: u128,
    pub author: UserInfo,
    pub content: String,
    pub timestamp: i64,
    pub reply_to: Option<u128>,
}

/// A thread of the lightweight forum listing.
#[derive(Debug)]
pub struct ThreadLightweight {
    pub id: u128,
    pub title: String,
    pub author: UserInfo,
    pub posts: Vec<PostLightweight>,
    pub timestamp: i64,
}

/// A forum of the lightweight forum listing (no images).
#[derive(Debug)]
pub struct ForumLightweight {
    pub id: u128,
    pub name: String,
    pub description: String,
    pub threads: Vec<ThreadLightweight>,
}

/// A chat channel of a server.
#[derive(Debug)]
pub struct Channel {
    pub id: u128,
    pub server_id: u128,
    pub name: String,
}

/// A chat server and its channels.
#[derive(Debug)]
pub struct Server {
    pub id: u128,
    pub name: String,
    pub owner: u128,
    pub channels: Vec<Channel>,
}

/// A message posted in a channel.
#[derive(Debug)]
pub struct ChannelMessage {
    pub id: u128,
    pub channel_id: u128,
    pub sent_by: u128,
    pub timestamp: i64,
    pub content: String,
}

/// A direct message between two users.
#[derive(Debug)]
pub struct DirectMessage {
    pub id: u128,
    pub from: u128,
    pub to: u128,
    pub timestamp: i64,
    pub content: String,
}

/// An entry of the user's notification history.
#[derive(Debug)]
pub struct Notification {
    pub id: u128,
    pub message: String,
    pub read: bool,
    pub timestamp: i64,
}

/// An invitation to join a server.
#[derive(Debug)]
pub struct ServerInvite {
    pub id: u128,
    pub from_user: User,
    pub server: Server,
}

/// Requests the client sends to the server.
#[derive(Debug)]
pub enum ClientMessage {
    Login { username: String, password: String },
    Register { username: String, password: String },
    Logout,
    UpdatePassword(String),
    UpdateColor(Color),
    UpdateProfile {
        bio: Option<String>,
        url1: Option<String>,
        url2: Option<String>,
        url3: Option<String>,
        location: Option<String>,
        profile_pic: Option<String>,
        cover_banner: Option<String>,
    },
    GetProfile { user_id: u128 },
    GetForums,
    CreateForum { name: String, description: String },
    DeleteForum { forum_id: u128 },
    CreateThread { forum_id: u128, title: String, content: String },
    DeleteThread(u128),
    CreatePost { thread_id: u128, content: String },
    DeletePost(u128),
    GetServers,
    GetDMUserList,
    GetChannelUserList { channel_id: u128 },
    GetChannelMessages { channel_id: u128, before: Option<i64> },
    GetDirectMessages { user_id: u128, before: Option<i64> },
    SendChannelMessage { channel_id: u128, content: String },
    SendDirectMessage { to: u128, content: String },
    GetNotifications { before: Option<i64> },
    SendServerInvite { to_user_id: u128, server_id: u128 },
    AcceptServerInviteFromUser { from_user_id: u128 },
    DeclineServerInviteFromUser { from_user_id: u128 },
    GetUserAvatars { user_ids: Vec<u128> },
}

/// Messages the server sends to the client. The statistics messages keep
/// their integer fields only: the client does no more than log the others.
#[derive(Debug)]
pub enum ServerMessage {
    AuthSuccess(User),
    AuthFailure(String),
    Forums(Vec<Forum>),
    ForumsLightweight(Vec<ForumLightweight>),
    Profile(UserProfile),
    UserUpdated(User),
    Servers(Vec<Server>),
    ChannelUserList { channel_id: u128, users: Vec<User> },
    DMUserList(Vec<User>),
    DirectMessage(DirectMessage),
    MentionNotification { from: User, content: String },
    ForumReplyNotification {
        thread_id: u128,
        from_username: String,
        message: String,
        from_user_profile_pic: Option<String>,
    },
    Notification(String, bool),
    Notifications { notifications: Vec<Notification>, history_complete: bool },
    ServerInviteReceived(ServerInvite),
    ServerInviteResponse { invite_id: u128, accepted: bool, user: User },
    UserJoined(User),
    UserLeft(u128),
    NewChannelMessage(ChannelMessage),
    ChannelMessages { channel_id: u128, messages: Vec<ChannelMessage>, history_complete: bool },
    DirectMessages { user_id: u128, messages: Vec<DirectMessage>, history_complete: bool },
    ChannelMessagesPaginated { channel_id: u128, messages: Vec<ChannelMessage>, has_more: bool },
    DirectMessagesPaginated { user_id: u128, messages: Vec<DirectMessage>, has_more: bool },
    CacheStats { total_entries: u64, expired_entries: u64 },
    ImageCacheInvalidated { keys: Vec<String> },
    PerformanceMetrics { query_time_ms: u64, message_count: u64 },
    UserAvatars { avatars: Vec<(u128, Option<String>)> },
}

/// A message ready for display, with its author resolved.
#[derive(Debug)]
pub struct ChatMessageWithMeta {
    pub author: String,
    pub content: String,
    pub color: Color,
    pub profile_pic: Option<String>,
    pub timestamp: Option<i64>,
}

/// A copy of an optional string, equal to it.
pub fn copy_opt_string(s: &Option<String>) -> (r: Option<String>)
    ensures
        r == *s,
{
    match s {
        Some(x) => Some(x.clone()),
        None => None,
    }
}

impl User {
    /// A copy of the user, equal to it.
    pub fn duplicate(&self) -> (r: User)
        ensures
            r == *self,
    {
        User {
            id: self.id,
            username: self.username.clone(),
            color: self.color,
            role: self.role,
            profile_pic: copy_opt_string(&self.profile_pic),
            cover_banner: copy_opt_string(&self.cover_banner),
            status: self.status,
        }
    }
}

} // verus!
