//! Post and reply models.

use crate::models::content::PostContent;
use crate::models::ids::{PostId, TopicId};
use crate::models::user::{NameModel, User};
use crate::text::{lowercase, lowered, str_eq};
use vstd::prelude::*;

verus! {

/// Attachment type.
#[derive(Debug, Clone, Copy, PartialEq, Eq, Structural)]
pub enum AttachmentKind {
    /// Image attachment.
    Image,
    /// Video attachment.
    Video,
    /// Audio attachment.
    Audio,
    /// Other file type.
    File,
}

/// Whether `ext` is one of the given extensions.
pub open spec fn is_image_ext(ext: Seq<char>) -> bool {
    ext == "jpg"@ || ext == "jpeg"@ || ext == "png"@ || ext == "gif"@ || ext == "webp"@ || ext
        == "bmp"@
}

pub open spec fn is_video_ext(ext: Seq<char>) -> bool {
    ext == "mp4"@ || ext == "webm"@ || ext == "mov"@ || ext == "avi"@ || ext == "mkv"@
}

pub open spec fn is_audio_ext(ext: Seq<char>) -> bool {
    ext == "mp3"@ || ext == "wav"@ || ext == "ogg"@ || ext == "m4a"@ || ext == "flac"@
}

/// The kind of attachment that a file extension stands for, whatever its
/// case.
pub open spec fn kind_of_ext(ext: Seq<char>) -> AttachmentKind {
    let e = lowered(ext);
    if is_image_ext(e) {
        AttachmentKind::Image
    } else if is_video_ext(e) {
        AttachmentKind::Video
    } else if is_audio_ext(e) {
        AttachmentKind::Audio
    } else {
        AttachmentKind::File
    }
}

impl AttachmentKind {
    /// Determine attachment kind from extension or mime type.
    pub fn from_ext(ext: &str) -> (r: Self)
        ensures
            r == kind_of_ext(ext@),
    {
        let low = lowercase(ext);
        let e = low.as_str();
        if str_eq(e, "jpg") || str_eq(e, "jpeg") || str_eq(e, "png") || str_eq(e, "gif") || str_eq(
            e,
            "webp",
        ) || str_eq(e, "bmp") {
            AttachmentKind::Image
        } else if str_eq(e, "mp4") || str_eq(e, "webm") || str_eq(e, "mov") || str_eq(e, "avi")
            || str_eq(e, "mkv") {
            AttachmentKind::Video
        } else if str_eq(e, "mp3") || str_eq(e, "wav") || str_eq(e, "ogg") || str_eq(e, "m4a")
            || str_eq(e, "flac") {
            AttachmentKind::Audio
        } else {
            AttachmentKind::File
        }
    }
}

impl Default for AttachmentKind {
    fn default() -> (r: Self)
        ensures
            r == AttachmentKind::File,
    {
        AttachmentKind::File
    }
}

/// Attachment on a post.
#[derive(Debug, Clone)]
pub struct Attachment {
    /// Attachment URL.
    pub url: String,
    /// The file's name.
    pub name: String,
    /// File size in bytes.
    pub size: i64,
    /// Attachment type.
    pub kind: AttachmentKind,
    /// Thumbnail URL for images.
    pub thumb_url: Option<String>,
    /// Image dimensions if applicable.
    pub dimensions: Option<(u32, u32)>,
}

/// User's vote direction.
#[derive(Debug, Clone, Copy, PartialEq, Eq, Structural)]
pub enum Vote {
    /// Upvote.
    Up,
    /// Downvote.
    Down,
}

impl Vote {
    /// Get the API parameter value.
    pub fn param(&self) -> (r: &'static str)
        ensures
            r@ == (match self {
                Vote::Up => "1"@,
                Vote::Down => "0"@,
            }),
    {
        match self {
            Vote::Up => "1",
            Vote::Down => "0",
        }
    }
}

/// Vote state for a post.
#[derive(Debug, Clone, Copy, PartialEq, Eq, Structural)]
pub struct VoteState {
    /// Upvote count.
    pub up: i32,
    /// Downvote count.
    pub down: i32,
    /// Current user's vote.
    pub user_vote: Option<Vote>,
}

impl Default for VoteState {
    fn default() -> (r: Self)
        ensures
            r == (VoteState { up: 0, down: 0, user_vote: None }),
    {
        VoteState { up: 0, down: 0, user_vote: None }
    }
}

impl VoteState {
    /// Calculate net score.
    pub fn net(&self) -> (r: i32)
        requires
            i32::MIN <= self.up - self.down <= i32::MAX,
        ensures
            r == self.up - self.down,
    {
        self.up - self.down
    }

    /// The net score where it fits an `i32`.
    pub fn checked_net(&self) -> (r: Option<i32>)
        ensures
            match r {
                Some(n) => n == self.up - self.down,
                None => self.up - self.down < i32::MIN || self.up - self.down > i32::MAX,
            },
    {
        let n: i64 = self.up as i64 - self.down as i64;
        if -0x8000_0000 <= n && n <= 0x7fff_ffff {
            Some(n as i32)
        } else {
            None
        }
    }
}

/// Post reply mode.
#[derive(Debug, Clone, Copy, PartialEq, Eq, Structural)]
pub enum ReplyMode {
    /// Reply to topic.
    Topic,
    /// Quote an existing post.
    Quote,
    /// Comment on an existing post.
    Comment,
}

/// Post action type for reporting, etc.
#[derive(Debug, Clone, Copy, PartialEq, Eq, Structural)]
pub enum PostAction {
    /// Report post.
    Report,
    /// Delete post.
    Delete,
}

/// A light-weight post representation.
#[derive(Debug, Clone)]
pub struct LightPost {
    /// Post ID.
    pub id: PostId,
    /// Author.
    pub author: User,
    /// Parsed content.
    pub content: PostContent,
    /// Post time.
    pub post_date: i64,
    /// Post score.
    pub score: i32,
}

impl Default for LightPost {
    fn default() -> (r: Self)
        ensures
            r.id.0@ == "0"@,
            r.author.is_bare("0"@, NameModel::Anonymous),
            r.content.spans@.len() == 0,
            r.post_date == 0,
            r.score == 0,
    {
        LightPost {
            id: PostId::default(),
            author: User::default(),
            content: PostContent::empty(),
            post_date: 0,
            score: 0,
        }
    }
}

/// A post/reply in a topic.
#[derive(Debug, Clone)]
pub struct Post {
    /// Post ID.
    pub id: PostId,
    /// Topic this post belongs to.
    pub topic_id: TopicId,
    /// Post floor number.
    pub floor: i32,
    /// Author of the post.
    pub author: User,
    /// Parsed post content.
    pub content: PostContent,
    /// Post time.
    pub post_date: i64,
    /// Edit time if edited.
    pub edit_date: Option<i64>,
    /// Whether this post has been edited.
    pub is_edited: bool,
    /// Attachments.
    pub attachments: Vec<Attachment>,
    /// Vote state for this post.
    pub vote: VoteState,
    /// Post score/rating.
    pub score: i32,
    /// Whether this post is hidden/collapsed.
    pub is_hidden: bool,
    /// Device/client used to post.
    pub from_device: Option<String>,
    /// Signature line.
    pub signature: Option<String>,
    /// Hot replies under this post.
    pub hot_replies: Vec<LightPost>,
    /// Comments under this post.
    pub comments: Vec<LightPost>,
    /// Comment count.
    pub comment_count: i32,
}

impl Default for Post {
    fn default() -> (r: Self)
        ensures
            r.id.0@ == "0"@,
            r.topic_id.0@ == "0"@,
            r.floor == 0,
            r.author.is_bare("0"@, NameModel::Anonymous),
            r.content.spans@.len() == 0,
            r.post_date == 0,
            r.edit_date is None,
            !r.is_edited,
            r.attachments@.len() == 0,
            r.vote == (VoteState { up: 0, down: 0, user_vote: None }),
            r.score == 0,
            !r.is_hidden,
            r.from_device is None,
            r.signature is None,
            r.hot_replies@.len() == 0,
            r.comments@.len() == 0,
            r.comment_count == 0,
    {
        Post {
            id: PostId::default(),
            topic_id: TopicId::default(),
            floor: 0,
            author: User::default(),
            content: PostContent::empty(),
            post_date: 0,
            edit_date: None,
            is_edited: false,
            attachments: Vec::new(),
            vote: VoteState::default(),
            score: 0,
            is_hidden: false,
            from_device: None,
            signature: None,
            hot_replies: Vec::new(),
            comments: Vec::new(),
            comment_count: 0,
        }
    }
}

impl Post {
    /// Check if this is the main post.
    pub fn is_main(&self) -> (r: bool)
        ensures
            r == (self.floor == 0),
    {
        self.floor == 0
    }
}

} // verus!
