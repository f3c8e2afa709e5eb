//! Notification API: requests and response mappers.

use crate::api::fields::{
    either_field, get_either, low_i32, opt_view, to_low_i32, Fields,
};
use crate::api::post::{fixed_pages_of, parse_fixed_pages};
use crate::error::Result;
use crate::models::ids::{PostId, TopicId, UserId};
use crate::models::notification::{Notification, NotificationCounts, NotificationType};
use crate::number::parse_i64;
use crate::parser::xml::{
    fields_of, is_document, is_document_error, is_query_error, lookup, node_model, node_models,
    query_int_or, query_nodes, NodeModel, XmlDocument, XmlNode,
};
use crate::text::{chars_of, decode_html, decoded};
use vstd::prelude::*;

verus! {

/// Result of a notification list request.
#[derive(Debug, Clone)]
pub struct NotificationListResult {
    /// Notifications.
    pub notifications: Vec<Notification>,
    /// Total pages.
    pub total_pages: u32,
    /// Current page.
    pub page: u32,
}

impl Default for NotificationListResult {
    fn default() -> (r: Self)
        ensures
            r.notifications@.len() == 0,
            r.total_pages == 0,
            r.page == 0,
    {
        NotificationListResult { notifications: Vec::new(), total_pages: 0, page: 0 }
    }
}

/// The text that the first group of the regular expression `pattern`
/// matches in `text`, as the `regex` crate finds it; `None` where the
/// pattern does not compile, does not match or has no such group.
pub uninterp spec fn first_group(pattern: Seq<char>, text: Seq<char>) -> Option<Seq<char>>;

/// Searches `text` for the regular expression `pattern`
/// (`regex::Regex::new`, then `Regex::captures`) and gives the text of the
/// first group of the leftmost match.
#[verifier::external_body]
pub(crate) fn capture_first(pattern: &str, text: &str) -> (r: Option<String>)
    ensures
        opt_view(r) == first_group(pattern@, text@),
{
    let re = regex::Regex::new(pattern).ok()?;
    re.captures(text)?.get(1).map(|m| m.as_str().to_owned())
}

/// The topic that an address refers to: the digits after its first `tid=`
/// that digits follow.
pub open spec fn topic_in_url(url: Seq<char>) -> Option<Seq<char>> {
    first_group("tid=(\\d+)"@, url)
}

/// The post that an address refers to: the digits after its first `pid=`
/// that digits follow.
pub open spec fn post_in_url(url: Seq<char>) -> Option<Seq<char>> {
    first_group("pid=(\\d+)"@, url)
}

/// The view of an optional identifier.
pub open spec fn id_view<const KIND: u8>(id: Option<crate::models::ids::Id<KIND>>) -> Option<
    Seq<char>,
> {
    match id {
        Some(i) => Some(i.0@),
        None => None,
    }
}

/// Reads the identifiers of the topic and of the post off an address.
pub fn extract_ids_from_url(url: &str) -> (r: (Option<TopicId>, Option<PostId>))
    ensures
        id_view(r.0) == topic_in_url(url@),
        id_view(r.1) == post_in_url(url@),
{
    let topic_id = match capture_first("tid=(\\d+)", url) {
        Some(t) => Some(TopicId::new(t.as_str())),
        None => None,
    };
    let post_id = match capture_first("pid=(\\d+)", url) {
        Some(p) => Some(PostId::new(p.as_str())),
        None => None,
    };
    (topic_id, post_id)
}

/// The counts of unread notifications in the response `xml`, each the low
/// 32 bits of the number at its place, zero where there is none.
pub open spec fn counts_of(xml: Seq<char>) -> NotificationCounts {
    NotificationCounts {
        replies: low_i32(query_int_or(xml, "/root/data/item/reply"@, 0)),
        quotes: low_i32(query_int_or(xml, "/root/data/item/quote"@, 0)),
        mentions: low_i32(query_int_or(xml, "/root/data/item/at"@, 0)),
        comments: low_i32(query_int_or(xml, "/root/data/item/comment"@, 0)),
        system: low_i32(query_int_or(xml, "/root/data/item/system"@, 0)),
        messages: low_i32(query_int_or(xml, "/root/data/item/pm"@, 0)),
    }
}

/// Maps the response to a request for the counts of unread notifications.
pub fn parse_notification_counts(xml: &str) -> (r: Result<NotificationCounts>)
    ensures
        match r {
            Ok(c) => is_document(xml@) && c == counts_of(xml@),
            Err(e) => is_document_error(xml@, e),
        },
{
    let doc = match XmlDocument::parse(xml) {
        Ok(d) => d,
        Err(e) => {
            return Err(e);
        },
    };
    Ok(
        NotificationCounts {
            replies: to_low_i32(doc.int_or("/root/data/item/reply", 0)),
            quotes: to_low_i32(doc.int_or("/root/data/item/quote", 0)),
            mentions: to_low_i32(doc.int_or("/root/data/item/at", 0)),
            comments: to_low_i32(doc.int_or("/root/data/item/comment", 0)),
            system: to_low_i32(doc.int_or("/root/data/item/system", 0)),
            messages: to_low_i32(doc.int_or("/root/data/item/pm", 0)),
        },
    )
}

/// Whether `n` is the notification of the kind `kind` that the fields
/// describe. The server names the fields or numbers them: `0` the content,
/// `1` the address, `2` and `3` the sender's identifier and name, `4` the
/// time. The topic and the post are read off the address.
pub open spec fn is_notification(n: Notification, f: Fields, kind: NotificationType) -> bool {
    &&& Some(n.id@) == lookup(f, "id"@)
    &&& n.kind == kind
    &&& n.content@ == decoded(
        match either_field(f, "0"@, "content"@) {
            Some(v) => v,
            None => Seq::empty(),
        },
    )
    &&& n.time == match either_field(f, "time"@, "4"@) {
        Some(v) => match crate::number::parsed_i64(v) {
            Some(t) => t,
            None => 0,
        },
        None => 0,
    }
    &&& !n.is_read
    &&& id_view(n.topic_id) == match either_field(f, "1"@, "url"@) {
        Some(url) => topic_in_url(url),
        None => None,
    }
    &&& id_view(n.post_id) == match either_field(f, "1"@, "url"@) {
        Some(url) => post_in_url(url),
        None => None,
    }
    &&& id_view(n.from_user_id) == either_field(f, "from_uid"@, "2"@)
    &&& opt_view(n.from_username) == either_field(f, "from_username"@, "3"@)
}

/// Maps one notification node. A node without `id` is no notification.
pub fn parse_notification(node: &XmlNode, kind: NotificationType) -> (r: Result<
    Option<Notification>,
>)
    ensures
        match r {
            Ok(Some(n)) => is_notification(n, fields_of(node_model(*node)), kind),
            Ok(None) => lookup(fields_of(node_model(*node)), "id"@) is None,
            Err(_) => false,
        },
{
    let attrs = node.attrs();
    let id = match attrs.get("id") {
        Some(id) => id.clone(),
        None => {
            return Ok(None);
        },
    };
    let content = match get_either(&attrs, "0", "content") {
        Some(v) => v,
        None => String::new(),
    };
    let (topic_id, post_id) = match get_either(&attrs, "1", "url") {
        Some(url) => extract_ids_from_url(url.as_str()),
        None => (None, None),
    };
    let from_user_id = match get_either(&attrs, "from_uid", "2") {
        Some(v) => Some(UserId::new(v.as_str())),
        None => None,
    };
    let time = match get_either(&attrs, "time", "4") {
        Some(v) => match parse_i64(&chars_of(v.as_str())) {
            Some(t) => t,
            None => 0,
        },
        None => 0,
    };
    Ok(
        Some(
            Notification {
                id,
                kind,
                content: decode_html(content.as_str()),
                time,
                is_read: false,
                topic_id,
                post_id,
                from_user_id,
                from_username: get_either(&attrs, "from_username", "3"),
            },
        ),
    )
}

/// Whether `out` lists, in order, the notifications of those among
/// `nodes` that have an `id`.
pub open spec fn are_notifications(
    nodes: Seq<NodeModel>,
    kind: NotificationType,
    out: Seq<Notification>,
) -> bool
    decreases nodes.len(),
{
    if nodes.len() == 0 {
        out.len() == 0
    } else if lookup(fields_of(nodes.last()), "id"@) is Some {
        &&& out.len() > 0
        &&& is_notification(out.last(), fields_of(nodes.last()), kind)
        &&& are_notifications(nodes.drop_last(), kind, out.drop_last())
    } else {
        are_notifications(nodes.drop_last(), kind, out)
    }
}

/// Maps the response to a request for the notifications of one kind.
pub fn parse_notification_list(xml: &str, kind: NotificationType) -> (r: Result<
    NotificationListResult,
>)
    ensures
        match r {
            Ok(res) => is_document(xml@) && (query_nodes(xml@, "/root/data/item"@) matches Ok(
                nodes,
            ) && are_notifications(nodes, kind, res.notifications@)) && res.total_pages
                == fixed_pages_of(xml@, 20) && res.page == 1,
            Err(e) => is_document_error(xml@, e) || (is_document(xml@) && is_query_error(
                xml@,
                "/root/data/item"@,
                e,
            )),
        },
{
    let doc = match XmlDocument::parse(xml) {
        Ok(d) => d,
        Err(e) => {
            return Err(e);
        },
    };
    let nodes = match doc.select("/root/data/item") {
        Ok(n) => n,
        Err(e) => {
            return Err(e);
        },
    };
    let ghost all = node_models(nodes@);
    let mut out: Vec<Notification> = Vec::new();
    let mut i: usize = 0;
    assert(all.subrange(0, 0) =~= Seq::<NodeModel>::empty());
    while i < nodes.len()
        invariant
            i <= nodes.len(),
            all == node_models(nodes@),
            are_notifications(all.subrange(0, i as int), kind, out@),
        decreases nodes.len() - i,
    {
        let ghost before = out@;
        assert(all.subrange(0, i + 1).drop_last() =~= all.subrange(0, i as int));
        assert(all.subrange(0, i + 1).last() == node_model(nodes@[i as int]));
        match parse_notification(&nodes[i], kind) {
            Ok(Some(n)) => {
                out.push(n);
                assert(out@.drop_last() =~= before);
            },
            _ => {},
        }
        i = i + 1;
    }
    assert(all.subrange(0, i as int) =~= all);
    Ok(
        NotificationListResult {
            notifications: out,
            total_pages: parse_fixed_pages(&doc, 20),
            page: 1,
        },
    )
}

} // verus!
