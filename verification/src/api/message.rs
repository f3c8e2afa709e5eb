//! Message API: requests and response mappers.

use crate::api::fields::{get_i32_or, get_i64_or, get_text, i32_or, i64_or, text_of_field, Fields};
use crate::api::post::{fixed_pages_of, parse_fixed_pages};
use crate::error::Result;
use crate::models::ids::UserId;
use crate::models::message::{ShortMessage, ShortMessagePost};
use crate::parser::bbcode::{is_content_of, parse_content};
use crate::parser::xml::{
    fields_of, is_document, is_document_error, is_query_error, lookup, node_model, node_models,
    query_nodes, query_text, NodeModel, XmlDocument, XmlNode,
};
use crate::text::str_eq;
use vstd::prelude::*;

verus! {

/// Result of message list request.
#[derive(Debug, Clone)]
pub struct MessageListResult {
    /// Conversations.
    pub conversations: Vec<ShortMessage>,
    /// Total pages.
    pub total_pages: u32,
    /// Current page.
    pub page: u32,
}

impl Default for MessageListResult {
    fn default() -> (r: Self)
        ensures
            r.conversations@.len() == 0,
            r.total_pages == 0,
            r.page == 0,
    {
        MessageListResult { conversations: Vec::new(), total_pages: 0, page: 0 }
    }
}

/// Result of conversation request.
#[derive(Debug, Clone)]
pub struct ConversationResult {
    /// Messages in conversation.
    pub messages: Vec<ShortMessagePost>,
    /// Other participant username.
    pub other_username: String,
    /// Other participant user ID.
    pub other_user_id: UserId,
    /// Total pages.
    pub total_pages: u32,
    /// Current page.
    pub page: u32,
}

impl Default for ConversationResult {
    fn default() -> (r: Self)
        ensures
            r.messages@.len() == 0,
            r.other_username@.len() == 0,
            r.other_user_id.0@ == "0"@,
            r.total_pages == 0,
            r.page == 0,
    {
        ConversationResult {
            messages: Vec::new(),
            other_username: String::new(),
            other_user_id: UserId::default(),
            total_pages: 0,
            page: 0,
        }
    }
}

/// The view of an optional user identifier.
pub open spec fn uid_view(uid: Option<&str>) -> Option<Seq<char>> {
    match uid {
        Some(u) => Some(u@),
        None => None,
    }
}

/// Whether the message with these fields was sent by the current user.
pub open spec fn sent_by(f: Fields, current: Option<Seq<char>>) -> bool {
    current == Some(text_of_field(f, "from_uid"@))
}

/// Tests whether `current` is the user with the identifier `uid`.
pub fn is_current(uid: &str, current: Option<&str>) -> (r: bool)
    ensures
        r == (uid_view(current) == Some(uid@)),
{
    match current {
        Some(c) => str_eq(c, uid),
        None => false,
    }
}

/// Whether `m` is the conversation that the fields describe, seen by the
/// user `current`: the other participant is the receiver where the
/// current user is the sender, else the sender.
pub open spec fn is_conversation(m: ShortMessage, f: Fields, current: Option<Seq<char>>) -> bool {
    &&& Some(m.id@) == lookup(f, "mid"@)
    &&& m.other_user_id.0@ == if sent_by(f, current) {
        text_of_field(f, "to_uid"@)
    } else {
        text_of_field(f, "from_uid"@)
    }
    &&& m.other_username@ == if sent_by(f, current) {
        text_of_field(f, "to_username"@)
    } else {
        text_of_field(f, "from_username"@)
    }
    &&& m.subject@ == text_of_field(f, "subject"@)
    &&& m.last_time == i64_or(f, "time"@, 0)
    &&& m.is_unread == (lookup(f, "bit"@) == Some("1"@))
    &&& m.message_count == i32_or(f, "count"@, 1)
}

/// Maps one conversation node. A node without `mid` is no conversation.
pub fn parse_conversation_item(node: &XmlNode, current_uid: Option<&str>) -> (r: Result<
    Option<ShortMessage>,
>)
    ensures
        match r {
            Ok(Some(m)) => is_conversation(
                m,
                fields_of(node_model(*node)),
                uid_view(current_uid),
            ),
            Ok(None) => lookup(fields_of(node_model(*node)), "mid"@) is None,
            Err(_) => false,
        },
{
    let attrs = node.attrs();
    let id = match attrs.get("mid") {
        Some(mid) => mid.clone(),
        None => {
            return Ok(None);
        },
    };
    let from_uid = get_text(&attrs, "from_uid");
    let mine = is_current(from_uid.as_str(), current_uid);
    let (other_user_id, other_username) = if mine {
        (get_text(&attrs, "to_uid"), get_text(&attrs, "to_username"))
    } else {
        (from_uid, get_text(&attrs, "from_username"))
    };
    let is_unread = match attrs.get("bit") {
        Some(b) => str_eq(b.as_str(), "1"),
        None => false,
    };
    Ok(
        Some(
            ShortMessage {
                id,
                other_user_id: UserId::new(other_user_id.as_str()),
                other_username,
                subject: get_text(&attrs, "subject"),
                last_time: get_i64_or(&attrs, "time", 0),
                is_unread,
                message_count: get_i32_or(&attrs, "count", 1),
            },
        ),
    )
}

/// Whether `out` lists, in order, the conversations of those among `nodes`
/// that have a `mid`.
pub open spec fn are_conversations(
    nodes: Seq<NodeModel>,
    current: Option<Seq<char>>,
    out: Seq<ShortMessage>,
) -> bool
    decreases nodes.len(),
{
    if nodes.len() == 0 {
        out.len() == 0
    } else if lookup(fields_of(nodes.last()), "mid"@) is Some {
        &&& out.len() > 0
        &&& is_conversation(out.last(), fields_of(nodes.last()), current)
        &&& are_conversations(nodes.drop_last(), current, out.drop_last())
    } else {
        are_conversations(nodes.drop_last(), current, out)
    }
}

/// Maps the response to a request for the list of conversations.
pub fn parse_message_list(xml: &str, current_uid: Option<&str>) -> (r: Result<MessageListResult>)
    ensures
        match r {
            Ok(res) => is_document(xml@) && (query_nodes(xml@, "/root/data/item"@) matches Ok(
                nodes,
            ) && are_conversations(nodes, uid_view(current_uid), res.conversations@))
                && res.total_pages == fixed_pages_of(xml@, 20) && res.page == 1,
            Err(e) => is_document_error(xml@, e) || (is_document(xml@) && is_query_error(
                xml@,
                "/root/data/item"@,
                e,
            )),
        },
{
    let doc = match XmlDocument::parse(xml) {
        Ok(d) => d,
        Err(e) => {
            return Err(e);
        },
    };
    let nodes = match doc.select("/root/data/item") {
        Ok(n) => n,
        Err(e) => {
            return Err(e);
        },
    };
    let ghost all = node_models(nodes@);
    let mut out: Vec<ShortMessage> = Vec::new();
    let mut i: usize = 0;
    assert(all.subrange(0, 0) =~= Seq::<NodeModel>::empty());
    while i < nodes.len()
        invariant
            i <= nodes.len(),
            all == node_models(nodes@),
            are_conversations(all.subrange(0, i as int), uid_view(current_uid), out@),
        decreases nodes.len() - i,
    {
        let ghost before = out@;
        assert(all.subrange(0, i + 1).drop_last() =~= all.subrange(0, i as int));
        assert(all.subrange(0, i + 1).last() == node_model(nodes@[i as int]));
        match parse_conversation_item(&nodes[i], current_uid) {
            Ok(Some(m)) => {
                out.push(m);
                assert(out@.drop_last() =~= before);
            },
            _ => {},
        }
        i = i + 1;
    }
    assert(all.subrange(0, i as int) =~= all);
    Ok(MessageListResult { conversations: out, total_pages: parse_fixed_pages(&doc, 20), page: 1 })
}

/// Whether `m` is the message that the fields describe, seen by the user
/// `current`.
pub open spec fn is_message_post(m: ShortMessagePost, f: Fields, current: Option<Seq<char>>) -> bool {
    &&& Some(m.id@) == lookup(f, "id"@)
    &&& m.from_user_id.0@ == text_of_field(f, "from_uid"@)
    &&& m.from_username@ == text_of_field(f, "from_username"@)
    &&& is_content_of(m.content, text_of_field(f, "content"@))
    &&& m.time == i64_or(f, "time"@, 0)
    &&& m.is_mine == sent_by(f, current)
}

/// Maps one message node. A node without `id` is no message.
pub fn parse_message_post(node: &XmlNode, current_uid: Option<&str>) -> (r: Result<
    Option<ShortMessagePost>,
>)
    ensures
        match r {
            Ok(Some(m)) => is_message_post(
                m,
                fields_of(node_model(*node)),
                uid_view(current_uid),
            ),
            Ok(None) => lookup(fields_of(node_model(*node)), "id"@) is None,
            Err(_) => false,
        },
{
    let attrs = node.attrs();
    let id = match attrs.get("id") {
        Some(id) => id.clone(),
        None => {
            return Ok(None);
        },
    };
    let from_uid = get_text(&attrs, "from_uid");
    let is_mine = is_current(from_uid.as_str(), current_uid);
    let content = parse_content(get_text(&attrs, "content").as_str());
    Ok(
        Some(
            ShortMessagePost {
                id,
                from_user_id: UserId::new(from_uid.as_str()),
                from_username: get_text(&attrs, "from_username"),
                content,
                time: get_i64_or(&attrs, "time", 0),
                is_mine,
            },
        ),
    )
}

/// Whether `out` lists, in order, the messages of those among `nodes` that
/// have an `id`.
pub open spec fn are_message_posts(
    nodes: Seq<NodeModel>,
    current: Option<Seq<char>>,
    out: Seq<ShortMessagePost>,
) -> bool
    decreases nodes.len(),
{
    if nodes.len() == 0 {
        out.len() == 0
    } else if lookup(fields_of(nodes.last()), "id"@) is Some {
        &&& out.len() > 0
        &&& is_message_post(out.last(), fields_of(nodes.last()), current)
        &&& are_message_posts(nodes.drop_last(), current, out.drop_last())
    } else {
        are_message_posts(nodes.drop_last(), current, out)
    }
}

/// Whether `res` is the conversation in the response `xml`, seen by the
/// user `current`.
pub open spec fn is_conversation_result(
    res: ConversationResult,
    xml: Seq<char>,
    current: Option<Seq<char>>,
) -> bool {
    &&& query_nodes(xml, "/root/data/item"@) matches Ok(nodes) && are_message_posts(
        nodes,
        current,
        res.messages@,
    )
    &&& res.other_username@ == match query_text(xml, "/root/__P/0/username"@) {
        Some(t) => t,
        None => Seq::empty(),
    }
    &&& res.other_user_id.0@ == match query_text(xml, "/root/__P/0/uid"@) {
        Some(t) => t,
        None => "0"@,
    }
    &&& res.total_pages == fixed_pages_of(xml, 20)
    &&& res.page == 1
}

/// Maps the response to a request for the messages of a conversation.
pub fn parse_conversation(xml: &str, current_uid: Option<&str>) -> (r: Result<ConversationResult>)
    ensures
        match r {
            Ok(res) => is_document(xml@) && is_conversation_result(
                res,
                xml@,
                uid_view(current_uid),
            ),
            Err(e) => is_document_error(xml@, e) || (is_document(xml@) && is_query_error(
                xml@,
                "/root/data/item"@,
                e,
            )),
        },
{
    let doc = match XmlDocument::parse(xml) {
        Ok(d) => d,
        Err(e) => {
            return Err(e);
        },
    };
    let other_username = match doc.string_opt("/root/__P/0/username") {
        Some(t) => t,
        None => String::new(),
    };
    let other_user_id = match doc.string_opt("/root/__P/0/uid") {
        Some(t) => UserId::new(t.as_str()),
        None => UserId::default(),
    };
    let nodes = match doc.select("/root/data/item") {
        Ok(n) => n,
        Err(e) => {
            return Err(e);
        },
    };
    let ghost all = node_models(nodes@);
    let mut out: Vec<ShortMessagePost> = Vec::new();
    let mut i: usize = 0;
    assert(all.subrange(0, 0) =~= Seq::<NodeModel>::empty());
    while i < nodes.len()
        invariant
            i <= nodes.len(),
            all == node_models(nodes@),
            are_message_posts(all.subrange(0, i as int), uid_view(current_uid), out@),
        decreases nodes.len() - i,
    {
        let ghost before = out@;
        assert(all.subrange(0, i + 1).drop_last() =~= all.subrange(0, i as int));
        assert(all.subrange(0, i + 1).last() == node_model(nodes@[i as int]));
        match parse_message_post(&nodes[i], current_uid) {
            Ok(Some(m)) => {
                out.push(m);
                assert(out@.drop_last() =~= before);
            },
            _ => {},
        }
        i = i + 1;
    }
    assert(all.subrange(0, i as int) =~= all);
    Ok(
        ConversationResult {
            messages: out,
            other_username,
            other_user_id,
            total_pages: parse_fixed_pages(&doc, 20),
            page: 1,
        },
    )
}

} // verus!
