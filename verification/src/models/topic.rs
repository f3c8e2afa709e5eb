//! Topic models.

use crate::models::content::Subject;
use crate::models::forum::ForumIdKind;
use crate::models::ids::TopicId;
use crate::models::user::{NameModel, User};
use vstd::prelude::*;

verus! {

/// Topic type enumeration.
#[derive(Debug, Clone, Copy, PartialEq, Eq, Structural)]
pub enum TopicType {
    /// Normal discussion topic.
    Normal,
    /// Poll topic.
    Poll,
    /// Debate topic.
    Debate,
    /// Combined/assembled topic.
    Assembly,
}

impl Default for TopicType {
    fn default() -> (r: Self)
        ensures
            r == TopicType::Normal,
    {
        TopicType::Normal
    }
}

/// The topic type that the server's type value stands for.
pub open spec fn topic_type_of(value: i32) -> TopicType {
    if value == 1 {
        TopicType::Poll
    } else if value == 2 {
        TopicType::Debate
    } else if value == 4 || value == 8 || value == 16 {
        TopicType::Assembly
    } else {
        TopicType::Normal
    }
}

impl From<i32> for TopicType {
    fn from(value: i32) -> (r: Self) {
        match value {
            1 => TopicType::Poll,
            2 => TopicType::Debate,
            4 | 8 | 16 => TopicType::Assembly,
            _ => TopicType::Normal,
        }
    }
}

impl vstd::std_specs::convert::FromSpecImpl<i32> for TopicType {
    open spec fn obeys_from_spec() -> bool {
        true
    }

    open spec fn from_spec(value: i32) -> Self {
        topic_type_of(value)
    }
}

/// A topic/thread.
#[derive(Debug, Clone)]
pub struct Topic {
    /// Topic ID.
    pub id: TopicId,
    /// Forum this topic belongs to.
    pub forum_id: Option<ForumIdKind>,
    /// Topic subject/title.
    pub subject: Subject,
    /// Author of the topic.
    pub author: User,
    /// Post date.
    pub post_date: i64,
    /// Last post date.
    pub last_post_date: i64,
    /// Number of replies.
    pub replies: i32,
    /// Last poster name.
    pub last_poster: String,
    /// Whether topic is locked.
    pub is_locked: bool,
    /// Whether topic is bold/highlighted.
    pub is_bold: bool,
    /// Whether topic is assembly.
    pub is_assembly: bool,
    /// Whether topic is pinned/topped.
    pub is_topped: bool,
    /// Topic type.
    pub topic_type: TopicType,
    /// Parent topic ID if this is a subtopic.
    pub parent_id: Option<TopicId>,
    /// Recommendation score.
    pub recommend: i32,
}

impl Topic {
    /// Whether the topic carries only the identifier `id`, every other
    /// field at its default.
    pub open spec fn is_bare(&self, id: Seq<char>) -> bool {
        &&& self.id.0@ == id
        &&& self.forum_id is None
        &&& self.subject.tags@.len() == 0
        &&& self.subject.content@.len() == 0
        &&& self.author.is_bare("0"@, NameModel::Anonymous)
        &&& self.post_date == 0
        &&& self.last_post_date == 0
        &&& self.replies == 0
        &&& self.last_poster@.len() == 0
        &&& !self.is_locked
        &&& !self.is_bold
        &&& !self.is_assembly
        &&& !self.is_topped
        &&& self.topic_type == TopicType::Normal
        &&& self.parent_id is None
        &&& self.recommend == 0
    }

    /// Create a topic with just an ID.
    pub fn with_id(id: &str) -> (r: Self)
        ensures
            r.is_bare(id@),
    {
        Topic {
            id: TopicId::new(id),
            forum_id: None,
            subject: Subject::default(),
            author: User::default(),
            post_date: 0,
            last_post_date: 0,
            replies: 0,
            last_poster: String::new(),
            is_locked: false,
            is_bold: false,
            is_assembly: false,
            is_topped: false,
            topic_type: TopicType::Normal,
            parent_id: None,
            recommend: 0,
        }
    }
}

impl Default for Topic {
    fn default() -> (r: Self)
        ensures
            r.is_bare("0"@),
    {
        Topic::with_id("0")
    }
}

/// Reads the clock (`chrono::Utc::now`) as seconds since the Unix epoch.
/// Nothing is promised of the value.
#[verifier::external_body]
pub(crate) fn now_timestamp() -> i64 {
    chrono::Utc::now().timestamp()
}

/// A snapshot of a topic for history purposes.
#[derive(Debug, Clone)]
pub struct TopicSnapshot {
    /// Topic ID.
    pub id: TopicId,
    /// Topic subject/title.
    pub subject: Subject,
    /// Forum name.
    pub forum_name: String,
    /// When this snapshot was created.
    pub timestamp: i64,
}

impl Default for TopicSnapshot {
    fn default() -> (r: Self)
        ensures
            r.id.0@ == "0"@,
            r.subject.tags@.len() == 0,
            r.subject.content@.len() == 0,
            r.forum_name@.len() == 0,
            r.timestamp == 0,
    {
        TopicSnapshot {
            id: TopicId::default(),
            subject: Subject::default(),
            forum_name: String::new(),
            timestamp: 0,
        }
    }
}

impl TopicSnapshot {
    /// Create a snapshot of a topic, taken at the given time.
    pub fn at(topic: &Topic, forum_name: &str, timestamp: i64) -> (r: Self)
        ensures
            r.id.0@ == topic.id.0@,
            r.subject.tags@ == topic.subject.tags@,
            r.subject.content@ == topic.subject.content@,
            r.forum_name@ == forum_name@,
            r.timestamp == timestamp,
    {
        TopicSnapshot {
            id: TopicId::new(topic.id.as_str()),
            subject: Subject::new(
                crate::models::content::clone_strings(&topic.subject.tags),
                topic.subject.content.clone(),
            ),
            forum_name: forum_name.to_owned(),
            timestamp,
        }
    }

    /// Create a new snapshot from a topic, taken now.
    pub fn from_topic(topic: &Topic, forum_name: &str) -> (r: Self)
        ensures
            r.id.0@ == topic.id.0@,
            r.subject.tags@ == topic.subject.tags@,
            r.subject.content@ == topic.subject.content@,
            r.forum_name@ == forum_name@,
    {
        TopicSnapshot::at(topic, forum_name, now_timestamp())
    }
}

/// Topic list sort order.
#[derive(Debug, Clone, Copy, PartialEq, Eq, Structural)]
pub enum TopicOrder {
    /// Sort by last post date.
    LastPost,
    /// Sort by creation date.
    PostDate,
    /// Sort by recommendation.
    Recommend,
}

impl Default for TopicOrder {
    fn default() -> (r: Self)
        ensures
            r == TopicOrder::LastPost,
    {
        TopicOrder::LastPost
    }
}

impl TopicOrder {
    /// Get the API parameter value.
    pub fn param(&self) -> (r: &'static str)
        ensures
            r@ == (match self {
                TopicOrder::LastPost => ""@,
                TopicOrder::PostDate => "postdate"@,
                TopicOrder::Recommend => "recommend"@,
            }),
    {
        match self {
            TopicOrder::LastPost => "",
            TopicOrder::PostDate => "postdate",
            TopicOrder::Recommend => "recommend",
        }
    }
}

/// Topic search time range.
#[derive(Debug, Clone, Copy, PartialEq, Eq, Structural)]
pub enum SearchTimeRange {
    /// All time.
    All,
    /// Within one day.
    Day,
    /// Within one week.
    Week,
    /// Within one month.
    Month,
    /// Within one year.
    Year,
}

impl Default for SearchTimeRange {
    fn default() -> (r: Self)
        ensures
            r == SearchTimeRange::All,
    {
        SearchTimeRange::All
    }
}

impl SearchTimeRange {
    /// Get the API parameter value: the range in seconds.
    pub fn param(&self) -> (r: &'static str)
        ensures
            r@ == (match self {
                SearchTimeRange::All => ""@,
                SearchTimeRange::Day => "86400"@,
                SearchTimeRange::Week => "604800"@,
                SearchTimeRange::Month => "2592000"@,
                SearchTimeRange::Year => "31536000"@,
            }),
    {
        match self {
            SearchTimeRange::All => "",
            SearchTimeRange::Day => "86400",
            SearchTimeRange::Week => "604800",
            SearchTimeRange::Month => "2592000",
            SearchTimeRange::Year => "31536000",
        }
    }
}

/// Favorite folder for topics.
#[derive(Debug, Clone)]
pub struct FavoriteFolder {
    /// Folder ID.
    pub id: String,
    /// Folder name.
    pub name: String,
    /// Number of topics in folder.
    pub count: i32,
}

impl Default for FavoriteFolder {
    fn default() -> (r: Self)
        ensures
            r.id@.len() == 0,
            r.name@.len() == 0,
            r.count == 0,
    {
        FavoriteFolder { id: String::new(), name: String::new(), count: 0 }
    }
}

/// Favorite topic operation.
#[derive(Debug, Clone, Copy, PartialEq, Eq, Structural)]
pub enum FavoriteTopicOp {
    /// Add to favorites.
    Add,
    /// Remove from favorites.
    Remove,
}

impl FavoriteTopicOp {
    /// Get the API parameter value.
    pub fn param(&self) -> (r: &'static str)
        ensures
            r@ == (match self {
                FavoriteTopicOp::Add => "add"@,
                FavoriteTopicOp::Remove => "del"@,
            }),
    {
        match self {
            FavoriteTopicOp::Add => "add",
            FavoriteTopicOp::Remove => "del",
        }
    }
}

} // verus!
