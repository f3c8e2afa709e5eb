//! Requests to the forum and the mappers of its responses.

pub mod fields;
pub mod forum;
pub mod message;
pub mod notification;
pub mod post;
pub mod request;
pub mod topic;
pub mod user;

pub use message::{ConversationResult, MessageListResult};
pub use notification::NotificationListResult;
pub use post::{
    CommentResult, CommentsResult, ReplyResult, UserPost, UserPostsResult, VoteResult,
};
pub use request::{
    ApiRequest, CommentBuilder, ConversationBuilder, FavoriteTopicsBuilder, ForumApi, MessageApi,
    NotificationApi, NotificationListBuilder, PostApi, ReplyBuilder, SendMessageBuilder, TopicApi,
    TopicDetailsBuilder, TopicListBuilder, TopicSearchBuilder, UserApi,
};
pub use topic::{Subforum, TopicDetailsResult, TopicListResult};
pub use user::UserSearchResult;
