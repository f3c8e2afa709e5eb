//! Post API: requests and response mappers.

use crate::api::fields::{
    get_i32_or, get_i64_or, get_text, i32_or, i64_or, low_i32, low_u32, pages_for,
    text_of_field, to_low_i32, to_low_u32, total_pages, Fields,
};
use crate::api::user::{get_name, name_field};
use crate::error::{Error, Result};
use crate::models::ids::{PostId, TopicId, UserId};
use crate::models::post::{LightPost, Vote, VoteState};
use crate::models::user::{bare_user, User};
use crate::parser::bbcode::{is_content_of, parse_content};
use crate::parser::xml::{
    fields_of, is_document, is_document_error, is_query_error, lookup, node_model, node_models,
    query_int_or, query_nodes, query_text, NodeModel, XmlDocument, XmlNode,
};
use crate::text::{decode_html, decoded};
use vstd::prelude::*;

verus! {

/// Result of a vote operation.
#[derive(Debug, Clone)]
pub struct VoteResult {
    /// Updated vote state.
    pub state: VoteState,
}

/// Result of a comments request.
#[derive(Debug, Clone)]
pub struct CommentsResult {
    /// Comments on the post.
    pub comments: Vec<LightPost>,
    /// Total number of pages.
    pub total_pages: u32,
    /// Current page.
    pub page: u32,
}

impl Default for CommentsResult {
    fn default() -> (r: Self)
        ensures
            r.comments@.len() == 0,
            r.total_pages == 0,
            r.page == 0,
    {
        CommentsResult { comments: Vec::new(), total_pages: 0, page: 0 }
    }
}

/// A post in user's post history.
#[derive(Debug, Clone)]
pub struct UserPost {
    /// Post ID.
    pub post_id: PostId,
    /// Topic ID.
    pub topic_id: TopicId,
    /// Topic subject.
    pub topic_subject: String,
    /// Post content preview.
    pub content_preview: String,
    /// Post time.
    pub post_date: i64,
}

/// Result of user posts request.
#[derive(Debug, Clone)]
pub struct UserPostsResult {
    /// Posts by the user.
    pub posts: Vec<UserPost>,
    /// Total number of pages.
    pub total_pages: u32,
    /// Current page.
    pub page: u32,
}

impl Default for UserPostsResult {
    fn default() -> (r: Self)
        ensures
            r.posts@.len() == 0,
            r.total_pages == 0,
            r.page == 0,
    {
        UserPostsResult { posts: Vec::new(), total_pages: 0, page: 0 }
    }
}

/// Result of a reply post.
#[derive(Debug, Clone)]
pub struct ReplyResult {
    /// ID of the new post.
    pub post_id: PostId,
}

/// Result of a comment post.
#[derive(Debug, Clone)]
pub struct CommentResult {
    /// Whether the comment was posted successfully.
    pub success: bool,
}

/// Whether `p` is the light post that the fields describe.
pub open spec fn is_light_post(p: LightPost, f: Fields) -> bool {
    &&& Some(p.id.0@) == lookup(f, "pid"@)
    &&& p.author.model() == bare_user(text_of_field(f, "authorid"@), name_field(f, "author"@))
    &&& is_content_of(p.content, text_of_field(f, "content"@))
    &&& p.post_date == i64_or(f, "postdate"@, 0)
    &&& p.score == i32_or(f, "score"@, 0)
}

/// Maps one node of a list of comments or hot replies. A node without
/// `pid` is no post.
pub fn parse_light_post(node: &XmlNode) -> (r: Result<Option<LightPost>>)
    ensures
        match r {
            Ok(Some(p)) => is_light_post(p, fields_of(node_model(*node))),
            Ok(None) => lookup(fields_of(node_model(*node)), "pid"@) is None,
            Err(_) => false,
        },
{
    let attrs = node.attrs();
    let id = match attrs.get("pid") {
        Some(pid) => pid.clone(),
        None => {
            return Ok(None);
        },
    };
    let author = User::bare(
        UserId::new(get_text(&attrs, "authorid").as_str()),
        get_name(&attrs, "author"),
    );
    let content = parse_content(get_text(&attrs, "content").as_str());
    Ok(
        Some(
            LightPost {
                id: PostId::new(id.as_str()),
                author,
                content,
                post_date: get_i64_or(&attrs, "postdate", 0),
                score: get_i32_or(&attrs, "score", 0),
            },
        ),
    )
}

/// Whether `out` lists, in order, the light posts of those among `nodes`
/// that have a `pid`.
pub open spec fn are_light_posts(nodes: Seq<NodeModel>, out: Seq<LightPost>) -> bool
    decreases nodes.len(),
{
    if nodes.len() == 0 {
        out.len() == 0
    } else if lookup(fields_of(nodes.last()), "pid"@) is Some {
        &&& out.len() > 0
        &&& is_light_post(out.last(), fields_of(nodes.last()))
        &&& are_light_posts(nodes.drop_last(), out.drop_last())
    } else {
        are_light_posts(nodes.drop_last(), out)
    }
}

/// Maps the nodes of a list of light posts, in order.
pub fn light_posts_from(nodes: &Vec<XmlNode>) -> (r: Vec<LightPost>)
    ensures
        are_light_posts(node_models(nodes@), r@),
{
    let ghost all = node_models(nodes@);
    let mut out: Vec<LightPost> = Vec::new();
    let mut i: usize = 0;
    assert(all.subrange(0, 0) =~= Seq::<NodeModel>::empty());
    while i < nodes.len()
        invariant
            i <= nodes.len(),
            all == node_models(nodes@),
            are_light_posts(all.subrange(0, i as int), out@),
        decreases nodes.len() - i,
    {
        let ghost before = out@;
        assert(all.subrange(0, i + 1).drop_last() =~= all.subrange(0, i as int));
        assert(all.subrange(0, i + 1).last() == node_model(nodes@[i as int]));
        match parse_light_post(&nodes[i]) {
            Ok(Some(p)) => {
                out.push(p);
                assert(out@.drop_last() =~= before);
            },
            _ => {},
        }
        i = i + 1;
    }
    assert(all.subrange(0, i as int) =~= all);
    out
}

/// Maps the response to a request for a post's hot replies.
pub fn parse_hot_replies(xml: &str) -> (r: Result<Vec<LightPost>>)
    ensures
        match r {
            Ok(replies) => is_document(xml@) && (query_nodes(xml@, "/root/data/item"@) matches Ok(
                nodes,
            ) && are_light_posts(nodes, replies@)),
            Err(e) => is_document_error(xml@, e) || (is_document(xml@) && is_query_error(
                xml@,
                "/root/data/item"@,
                e,
            )),
        },
{
    let doc = match XmlDocument::parse(xml) {
        Ok(d) => d,
        Err(e) => {
            return Err(e);
        },
    };
    match doc.select("/root/data/item") {
        Ok(nodes) => Ok(light_posts_from(&nodes)),
        Err(e) => Err(e),
    }
}

/// The number of pages of a response at a fixed page size: the row count
/// at `/root/__ROWS`, taken modulo two to the 32.
pub open spec fn fixed_pages_of(xml: Seq<char>, per_page: u32) -> int {
    pages_for(low_u32(query_int_or(xml, "/root/__ROWS"@, 0)) as int, per_page as int)
}

/// Reads the number of pages off a response with a fixed page size.
pub fn parse_fixed_pages(doc: &XmlDocument, per_page: u32) -> (r: u32)
    requires
        per_page > 0,
    ensures
        r == fixed_pages_of(doc.source(), per_page),
        r >= 1,
{
    total_pages(to_low_u32(doc.int_or("/root/__ROWS", 0)), per_page)
}

/// Maps the response to a request for a post's comments.
pub fn parse_comments(xml: &str) -> (r: Result<CommentsResult>)
    ensures
        match r {
            Ok(res) => is_document(xml@) && (query_nodes(xml@, "/root/data/item"@) matches Ok(
                nodes,
            ) && are_light_posts(nodes, res.comments@)) && res.total_pages == fixed_pages_of(
                xml@,
                20,
            ) && res.page == 1,
            Err(e) => is_document_error(xml@, e) || (is_document(xml@) && is_query_error(
                xml@,
                "/root/data/item"@,
                e,
            )),
        },
{
    let doc = match XmlDocument::parse(xml) {
        Ok(d) => d,
        Err(e) => {
            return Err(e);
        },
    };
    let nodes = match doc.select("/root/data/item") {
        Ok(n) => n,
        Err(e) => {
            return Err(e);
        },
    };
    let comments = light_posts_from(&nodes);
    Ok(CommentsResult { comments, total_pages: parse_fixed_pages(&doc, 20), page: 1 })
}

/// Whether the fields describe a post of a user's history: they hold both
/// `tid` and `pid`.
pub open spec fn has_post_ids(f: Fields) -> bool {
    lookup(f, "tid"@) is Some && lookup(f, "pid"@) is Some
}

/// Whether `p` is the entry of a user's post history that the fields
/// describe.
pub open spec fn is_user_post(p: UserPost, f: Fields) -> bool {
    &&& Some(p.post_id.0@) == lookup(f, "pid"@)
    &&& Some(p.topic_id.0@) == lookup(f, "tid"@)
    &&& p.topic_subject@ == text_of_field(f, "subject"@)
    &&& p.content_preview@ == text_of_field(f, "content"@)
    &&& p.post_date == i64_or(f, "postdate"@, 0)
}

/// Whether `out` lists, in order, the entries of those among `nodes` that
/// hold both identifiers.
pub open spec fn are_user_posts(nodes: Seq<NodeModel>, out: Seq<UserPost>) -> bool
    decreases nodes.len(),
{
    if nodes.len() == 0 {
        out.len() == 0
    } else if has_post_ids(fields_of(nodes.last())) {
        &&& out.len() > 0
        &&& is_user_post(out.last(), fields_of(nodes.last()))
        &&& are_user_posts(nodes.drop_last(), out.drop_last())
    } else {
        are_user_posts(nodes.drop_last(), out)
    }
}

/// Maps one node of a user's post history.
pub fn parse_user_post(node: &XmlNode) -> (r: Option<UserPost>)
    ensures
        match r {
            Some(p) => has_post_ids(fields_of(node_model(*node))) && is_user_post(
                p,
                fields_of(node_model(*node)),
            ),
            None => !has_post_ids(fields_of(node_model(*node))),
        },
{
    let attrs = node.attrs();
    match (attrs.get("tid"), attrs.get("pid")) {
        (Some(tid), Some(pid)) => Some(
            UserPost {
                post_id: PostId::new(pid.as_str()),
                topic_id: TopicId::new(tid.as_str()),
                topic_subject: get_text(&attrs, "subject"),
                content_preview: get_text(&attrs, "content"),
                post_date: get_i64_or(&attrs, "postdate", 0),
            },
        ),
        _ => None,
    }
}

/// Maps the response to a request for a user's posts.
pub fn parse_user_posts(xml: &str) -> (r: Result<UserPostsResult>)
    ensures
        match r {
            Ok(res) => is_document(xml@) && (query_nodes(xml@, "/root/__T/item"@) matches Ok(
                nodes,
            ) && are_user_posts(nodes, res.posts@)) && res.total_pages == fixed_pages_of(xml@, 35)
                && res.page == 1,
            Err(e) => is_document_error(xml@, e) || (is_document(xml@) && is_query_error(
                xml@,
                "/root/__T/item"@,
                e,
            )),
        },
{
    let doc = match XmlDocument::parse(xml) {
        Ok(d) => d,
        Err(e) => {
            return Err(e);
        },
    };
    let nodes = match doc.select("/root/__T/item") {
        Ok(n) => n,
        Err(e) => {
            return Err(e);
        },
    };
    let ghost all = node_models(nodes@);
    let mut out: Vec<UserPost> = Vec::new();
    let mut i: usize = 0;
    assert(all.subrange(0, 0) =~= Seq::<NodeModel>::empty());
    while i < nodes.len()
        invariant
            i <= nodes.len(),
            all == node_models(nodes@),
            are_user_posts(all.subrange(0, i as int), out@),
        decreases nodes.len() - i,
    {
        let ghost before = out@;
        assert(all.subrange(0, i + 1).drop_last() =~= all.subrange(0, i as int));
        assert(all.subrange(0, i + 1).last() == node_model(nodes@[i as int]));
        match parse_user_post(&nodes[i]) {
            Some(p) => {
                out.push(p);
                assert(out@.drop_last() =~= before);
            },
            None => {},
        }
        i = i + 1;
    }
    assert(all.subrange(0, i as int) =~= all);
    Ok(UserPostsResult { posts: out, total_pages: parse_fixed_pages(&doc, 35), page: 1 })
}

/// The vote that the server's number stands for: 1 up, 0 down.
pub open spec fn vote_of(n: i64) -> Option<Vote> {
    if n == 1 {
        Some(Vote::Up)
    } else if n == 0 {
        Some(Vote::Down)
    } else {
        None
    }
}

/// The vote state in the response to a vote: the first three data items
/// are the count of votes up, of votes down and the user's own vote.
pub open spec fn vote_state_of(xml: Seq<char>) -> VoteState {
    VoteState {
        up: low_i32(query_int_or(xml, "/root/data/item[1]"@, 0)),
        down: low_i32(query_int_or(xml, "/root/data/item[2]"@, 0)),
        user_vote: vote_of(query_int_or(xml, "/root/data/item[3]"@, 0)),
    }
}

/// Maps the response to a vote.
pub fn parse_vote_response(xml: &str) -> (r: Result<VoteResult>)
    ensures
        match r {
            Ok(res) => is_document(xml@) && res.state == vote_state_of(xml@),
            Err(e) => is_document_error(xml@, e),
        },
{
    let doc = match XmlDocument::parse(xml) {
        Ok(d) => d,
        Err(e) => {
            return Err(e);
        },
    };
    let up = to_low_i32(doc.int_or("/root/data/item[1]", 0));
    let down = to_low_i32(doc.int_or("/root/data/item[2]", 0));
    let own = doc.int_or("/root/data/item[3]", 0);
    let user_vote = if own == 1 {
        Some(Vote::Up)
    } else if own == 0 {
        Some(Vote::Down)
    } else {
        None
    };
    Ok(VoteResult { state: VoteState { up, down, user_vote } })
}

/// The server's explanation of a refused reply: the message in the data,
/// or at the root, or `Unknown error`.
pub open spec fn reply_refusal(xml: Seq<char>) -> Seq<char> {
    match query_text(xml, "/root/data/__MESSAGE"@) {
        Some(t) => t,
        None => match query_text(xml, "/root/__MESSAGE"@) {
            Some(t) => t,
            None => "Unknown error"@,
        },
    }
}

/// Maps the response to a reply: the first data item is the new post's
/// identifier; without one the reply was refused.
pub fn parse_reply_response(xml: &str) -> (r: Result<ReplyResult>)
    ensures
        match r {
            Ok(res) => is_document(xml@) && query_text(xml@, "/root/data/item[1]"@) == Some(
                res.post_id.0@,
            ),
            Err(e) => is_document_error(xml@, e) || (is_document(xml@) && query_text(
                xml@,
                "/root/data/item[1]"@,
            ) is None && (e matches Error::NGAApi { code, message } && code@ == "post"@
                && message@ == reply_refusal(xml@))),
        },
{
    let doc = match XmlDocument::parse(xml) {
        Ok(d) => d,
        Err(e) => {
            return Err(e);
        },
    };
    match doc.string_opt("/root/data/item[1]") {
        Some(pid) => Ok(ReplyResult { post_id: PostId::new(pid.as_str()) }),
        None => {
            let message = match doc.string_opt("/root/data/__MESSAGE") {
                Some(t) => t,
                None => match doc.string_opt("/root/__MESSAGE") {
                    Some(t) => t,
                    None => "Unknown error".to_owned(),
                },
            };
            Err(Error::nga("post", message.as_str()))
        },
    }
}

/// The server's explanation of a refused comment.
pub open spec fn comment_refusal(xml: Seq<char>) -> Seq<char> {
    match query_text(xml, "/root/__MESSAGE"@) {
        Some(t) => t,
        None => "Unknown error"@,
    }
}

/// Maps the response to a comment: it was posted when the response holds
/// data.
pub fn parse_comment_response(xml: &str) -> (r: Result<CommentResult>)
    ensures
        match r {
            Ok(res) => is_document(xml@) && query_text(xml@, "/root/data"@) is Some
                && res.success,
            Err(e) => is_document_error(xml@, e) || (is_document(xml@) && query_text(
                xml@,
                "/root/data"@,
            ) is None && (e matches Error::NGAApi { code, message } && code@ == "comment"@
                && message@ == comment_refusal(xml@))),
        },
{
    let doc = match XmlDocument::parse(xml) {
        Ok(d) => d,
        Err(e) => {
            return Err(e);
        },
    };
    match doc.string_opt("/root/data") {
        Some(_) => Ok(CommentResult { success: true }),
        None => {
            let message = match doc.string_opt("/root/__MESSAGE") {
                Some(t) => t,
                None => "Unknown error".to_owned(),
            };
            Err(Error::nga("comment", message.as_str()))
        },
    }
}

/// The content to quote in the response to a quote request: the text at
/// `/root/content`, decoded.
pub open spec fn quote_content_of(xml: Seq<char>) -> Seq<char> {
    decoded(
        match query_text(xml, "/root/content"@) {
            Some(t) => t,
            None => Seq::empty(),
        },
    )
}

/// Maps the response to a request for the content of a post to quote.
pub fn parse_quote_content(xml: &str) -> (r: Result<String>)
    ensures
        match r {
            Ok(t) => is_document(xml@) && t@ == quote_content_of(xml@),
            Err(e) => is_document_error(xml@, e),
        },
{
    let doc = match XmlDocument::parse(xml) {
        Ok(d) => d,
        Err(e) => {
            return Err(e);
        },
    };
    let content = match doc.string_opt("/root/content") {
        Some(t) => t,
        None => String::new(),
    };
    Ok(decode_html(content.as_str()))
}

} // verus!
