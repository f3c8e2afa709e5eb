//! Client-side protocol and parsing layer for the NGA forum API.
//!
//! The library turns the forum's XML responses into typed entities and
//! says which requests to send. It parses the site's markup into a span
//! tree, maps response nodes to topics, posts, users and the like, decides
//! how the response format is negotiated, and plans and merges bulk
//! fetches. Sending a request is left to the caller.

pub mod aggregate;
pub mod api;
pub mod cache;
pub mod client;
pub mod error;
pub mod models;
pub mod number;
pub mod parser;
pub mod text;

pub use client::{AuthInfo, Device, HttpConfig, NGAClient, NGAClientBuilder};
pub use error::{Error, Result};
pub use models::{
    Attachment, AttachmentKind, Category, FavoriteFolder, FavoriteForumOp, FavoriteTopicOp,
    Forum, ForumId, ForumIdKind, LightPost, Notification, NotificationCounts, NotificationType,
    Post, PostContent, PostId, SearchTimeRange, ShortMessage, ShortMessagePost, Span, SpanKind,
    Subject, SubforumFilterOp, Topic, TopicId, TopicOrder, TopicSnapshot, TopicType, User, UserId,
    UserName, Vote, VoteState,
};
pub use api::{
    ConversationResult, MessageListResult, NotificationListResult, Subforum, TopicDetailsResult,
    TopicListResult, UserPostsResult, UserSearchResult, VoteResult,
};
