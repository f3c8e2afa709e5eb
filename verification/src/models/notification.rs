//! Notification models.

use crate::models::ids::{PostId, TopicId, UserId};
use crate::text::{lowercase, lowered, str_eq};
use vstd::prelude::*;

verus! {

/// Type of notification.
#[derive(Debug, Clone, Copy, PartialEq, Eq, Structural)]
pub enum NotificationType {
    /// Reply to your post.
    Reply,
    /// Quote of your post.
    Quote,
    /// @ mention.
    Mention,
    /// System message.
    System,
    /// Punishment/warning.
    Punishment,
    /// Short message.
    Message,
    /// Comment on your post.
    Comment,
    /// Other/unknown.
    Other,
}

impl Default for NotificationType {
    fn default() -> (r: Self)
        ensures
            r == NotificationType::Reply,
    {
        NotificationType::Reply
    }
}

impl NotificationType {
    /// The notification type that the server's type number stands for.
    pub open spec fn of_type_id(id: i32) -> Self {
        if id == 1 {
            NotificationType::Reply
        } else if id == 2 {
            NotificationType::Quote
        } else if id == 3 {
            NotificationType::Mention
        } else if id == 4 {
            NotificationType::System
        } else if id == 5 {
            NotificationType::Punishment
        } else if id == 6 {
            NotificationType::Message
        } else if id == 7 {
            NotificationType::Comment
        } else {
            NotificationType::Other
        }
    }

    /// Parse from the server's notification type number.
    pub fn from_type_id(id: i32) -> (r: Self)
        ensures
            r == Self::of_type_id(id),
    {
        match id {
            1 => NotificationType::Reply,
            2 => NotificationType::Quote,
            3 => NotificationType::Mention,
            4 => NotificationType::System,
            5 => NotificationType::Punishment,
            6 => NotificationType::Message,
            7 => NotificationType::Comment,
            _ => NotificationType::Other,
        }
    }

    /// The API parameter value of the type.
    pub open spec fn param_text(&self) -> Seq<char> {
        match self {
            NotificationType::Reply => "reply"@,
            NotificationType::Quote => "quote"@,
            NotificationType::Mention => "at"@,
            NotificationType::System => "system"@,
            NotificationType::Punishment => "punishment"@,
            NotificationType::Message => "message"@,
            NotificationType::Comment => "comment"@,
            NotificationType::Other => ""@,
        }
    }

    /// Get the API parameter value for fetching.
    pub fn param(&self) -> (r: &'static str)
        ensures
            r@ == self.param_text(),
    {
        match self {
            NotificationType::Reply => "reply",
            NotificationType::Quote => "quote",
            NotificationType::Mention => "at",
            NotificationType::System => "system",
            NotificationType::Punishment => "punishment",
            NotificationType::Message => "message",
            NotificationType::Comment => "comment",
            NotificationType::Other => "",
        }
    }
}

/// The notification type that a lowercase word names, singular or plural;
/// replies where the word names none.
pub open spec fn type_of_word(w: Seq<char>) -> NotificationType {
    if w == "quote"@ || w == "quotes"@ {
        NotificationType::Quote
    } else if w == "mention"@ || w == "mentions"@ || w == "at"@ {
        NotificationType::Mention
    } else if w == "comment"@ || w == "comments"@ {
        NotificationType::Comment
    } else if w == "system"@ {
        NotificationType::System
    } else if w == "message"@ || w == "messages"@ || w == "pm"@ {
        NotificationType::Message
    } else {
        NotificationType::Reply
    }
}

/// Parse notification type from its name, in any case.
pub fn parse_notification_type(kind: &str) -> (r: NotificationType)
    ensures
        r == type_of_word(lowered(kind@)),
{
    let low = lowercase(kind);
    let w = low.as_str();
    if str_eq(w, "quote") || str_eq(w, "quotes") {
        NotificationType::Quote
    } else if str_eq(w, "mention") || str_eq(w, "mentions") || str_eq(w, "at") {
        NotificationType::Mention
    } else if str_eq(w, "comment") || str_eq(w, "comments") {
        NotificationType::Comment
    } else if str_eq(w, "system") {
        NotificationType::System
    } else if str_eq(w, "message") || str_eq(w, "messages") || str_eq(w, "pm") {
        NotificationType::Message
    } else {
        NotificationType::Reply
    }
}

/// A notification for the current user.
#[derive(Debug, Clone)]
pub struct Notification {
    /// Notification ID.
    pub id: String,
    /// Type of notification.
    pub kind: NotificationType,
    /// Notification content/message.
    pub content: String,
    /// Time when notification was created.
    pub time: i64,
    /// Whether notification has been read.
    pub is_read: bool,
    /// Related topic ID if applicable.
    pub topic_id: Option<TopicId>,
    /// Related post ID if applicable.
    pub post_id: Option<PostId>,
    /// User who triggered the notification.
    pub from_user_id: Option<UserId>,
    /// From username.
    pub from_username: Option<String>,
}

impl Default for Notification {
    fn default() -> (r: Self)
        ensures
            r.id@.len() == 0,
            r.kind == NotificationType::Reply,
            r.content@.len() == 0,
            r.time == 0,
            !r.is_read,
            r.topic_id is None,
            r.post_id is None,
            r.from_user_id is None,
            r.from_username is None,
    {
        Notification {
            id: String::new(),
            kind: NotificationType::Reply,
            content: String::new(),
            time: 0,
            is_read: false,
            topic_id: None,
            post_id: None,
            from_user_id: None,
            from_username: None,
        }
    }
}

/// Notification counts by type.
#[derive(Debug, Clone, Copy, PartialEq, Eq, Structural)]
pub struct NotificationCounts {
    /// Unread replies.
    pub replies: i32,
    /// Unread quotes.
    pub quotes: i32,
    /// Unread mentions.
    pub mentions: i32,
    /// Unread comments.
    pub comments: i32,
    /// Unread system messages.
    pub system: i32,
    /// Unread PMs.
    pub messages: i32,
}

impl Default for NotificationCounts {
    fn default() -> (r: Self)
        ensures
            r == (NotificationCounts {
                replies: 0,
                quotes: 0,
                mentions: 0,
                comments: 0,
                system: 0,
                messages: 0,
            }),
    {
        NotificationCounts { replies: 0, quotes: 0, mentions: 0, comments: 0, system: 0, messages: 0 }
    }
}

impl NotificationCounts {
    /// The sum of the six counts.
    pub open spec fn sum(&self) -> int {
        self.replies + self.quotes + self.mentions + self.comments + self.system + self.messages
    }

    /// Total unread count.
    pub fn total(&self) -> (r: i32)
        requires
            i32::MIN <= self.replies + self.quotes <= i32::MAX,
            i32::MIN <= self.replies + self.quotes + self.mentions <= i32::MAX,
            i32::MIN <= self.replies + self.quotes + self.mentions + self.comments <= i32::MAX,
            i32::MIN <= self.replies + self.quotes + self.mentions + self.comments + self.system
                <= i32::MAX,
            i32::MIN <= self.sum() <= i32::MAX,
        ensures
            r == self.sum(),
    {
        self.replies + self.quotes + self.mentions + self.comments + self.system + self.messages
    }

    /// The total unread count where it fits an `i32`.
    pub fn checked_total(&self) -> (r: Option<i32>)
        ensures
            match r {
                Some(t) => t == self.sum(),
                None => self.sum() < i32::MIN || self.sum() > i32::MAX,
            },
    {
        let sum: i64 = self.replies as i64 + self.quotes as i64 + self.mentions as i64
            + self.comments as i64 + self.system as i64 + self.messages as i64;
        if -0x8000_0000 <= sum && sum <= 0x7fff_ffff {
            Some(sum as i32)
        } else {
            None
        }
    }

    /// Check if there are any unread notifications.
    pub fn has_unread(&self) -> (r: bool)
        ensures
            r == (self.sum() > 0),
    {
        let sum: i64 = self.replies as i64 + self.quotes as i64 + self.mentions as i64
            + self.comments as i64 + self.system as i64 + self.messages as i64;
        sum > 0
    }
}

} // verus!
