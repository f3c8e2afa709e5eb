//! Short message models.

use crate::models::content::PostContent;
use crate::models::ids::UserId;
use vstd::prelude::*;

verus! {

/// A short message conversation.
#[derive(Debug, Clone)]
pub struct ShortMessage {
    /// Conversation ID.
    pub id: String,
    /// The other participant's user ID.
    pub other_user_id: UserId,
    /// The other participant's username.
    pub other_username: String,
    /// Subject of the conversation.
    pub subject: String,
    /// Last message time.
    pub last_time: i64,
    /// Whether there are unread messages.
    pub is_unread: bool,
    /// Number of messages in conversation.
    pub message_count: i32,
}

impl Default for ShortMessage {
    fn default() -> (r: Self)
        ensures
            r.id@.len() == 0,
            r.other_user_id.0@ == "0"@,
            r.other_username@.len() == 0,
            r.subject@.len() == 0,
            r.last_time == 0,
            !r.is_unread,
            r.message_count == 0,
    {
        ShortMessage {
            id: String::new(),
            other_user_id: UserId::default(),
            other_username: String::new(),
            subject: String::new(),
            last_time: 0,
            is_unread: false,
            message_count: 0,
        }
    }
}

/// A single message in a conversation.
#[derive(Debug, Clone)]
pub struct ShortMessagePost {
    /// Message ID.
    pub id: String,
    /// Sender user ID.
    pub from_user_id: UserId,
    /// Sender username.
    pub from_username: String,
    /// Message content.
    pub content: PostContent,
    /// Message time.
    pub time: i64,
    /// Whether this message is from current user.
    pub is_mine: bool,
}

impl Default for ShortMessagePost {
    fn default() -> (r: Self)
        ensures
            r.id@.len() == 0,
            r.from_user_id.0@ == "0"@,
            r.from_username@.len() == 0,
            r.content.spans@.len() == 0,
            r.time == 0,
            !r.is_mine,
    {
        ShortMessagePost {
            id: String::new(),
            from_user_id: UserId::default(),
            from_username: String::new(),
            content: PostContent::empty(),
            time: 0,
            is_mine: false,
        }
    }
}

impl ShortMessagePost {
    /// Mark this message as from the current user.
    pub fn mark_as_mine(self) -> (r: Self)
        ensures
            r.is_mine,
            r.id == self.id,
            r.from_user_id == self.from_user_id,
            r.from_username == self.from_username,
            r.content == self.content,
            r.time == self.time,
    {
        let mut m = self;
        m.is_mine = true;
        m
    }
}

} // verus!
