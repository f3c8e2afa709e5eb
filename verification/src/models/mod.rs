//! Data models for forum entities.

pub mod content;
pub mod forum;
pub mod ids;
pub mod message;
pub mod notification;
pub mod post;
pub mod topic;
pub mod user;

pub use content::{PostContent, Span, SpanKind, Subject};
pub use forum::{Category, FavoriteForumOp, Forum, ForumIdKind, SubforumFilterOp};
pub use ids::{ForumId, PostId, TopicId, UserId};
pub use message::{ShortMessage, ShortMessagePost};
pub use notification::{
    parse_notification_type, Notification, NotificationCounts, NotificationType,
};
pub use post::{Attachment, AttachmentKind, LightPost, Post, PostAction, ReplyMode, Vote, VoteState};
pub use topic::{
    FavoriteFolder, FavoriteTopicOp, SearchTimeRange, Topic, TopicOrder, TopicSnapshot, TopicType,
};
pub use user::{parse_anon_id, User, UserName};
