//! Topic API: requests and response mappers.

use crate::api::fields::{
    after_last, before_first, either_field, get_either, get_i32, get_i32_or, get_i64,
    get_i64_or, get_nonempty, get_nonzero, get_opt, get_text, get_u64_or, head_before, i32_field,
    i32_or, i64_field, i64_or, low_u32, nonempty_field, nonzero_field, opt_view, pages_for,
    tail_after, text_of_field, to_low_u32, total_pages, u64_or, Fields,
};
use crate::api::user::{get_name, name_field, parse_user, user_of};
use crate::error::{Error, Result};
use crate::models::content::Subject;
use crate::models::forum::{icon_url, icon_url_of, Forum, ForumIdKind};
use crate::models::ids::{PostId, TopicId, UserId};
use crate::models::post::{kind_of_ext, Attachment, AttachmentKind, Post, VoteState};
use crate::models::topic::{topic_type_of, Topic, TopicType};
use crate::models::user::{bare_user, NameModel, User, UserModel, UserName};
use crate::number::{parse_u32, parse_u64, parsed_u32, parsed_u64};
use crate::parser::bbcode::{is_content_of, parse_content, parse_subject};
use crate::parser::grammar::{subject_of, unescaped};
use crate::parser::xml::{
    children_named_of, children_of, fields_of, is_document, is_document_error, is_query_error,
    lookup, name_of, node_model, node_models, query_int_or, query_nodes, query_text, ref_models,
    text_of, NodeModel, XmlDocument, XmlNode,
};
use crate::text::{
    chars_of, contains, contains_seq, seqs_of, split, split_chars, str_eq, string_of, strs_of,
};
use vstd::prelude::*;

verus! {

/// The identifier of the topic that a node's fields describe: `quote_from`
/// where it is present and not zero, for a topic shown in place of
/// another, else `tid`.
pub open spec fn topic_id_of(f: Fields) -> Option<Seq<char>> {
    match nonzero_field(f, "quote_from"@) {
        Some(v) => Some(v),
        None => lookup(f, "tid"@),
    }
}

/// Whether `k` is the regular forum identifier that the `fid` field gives.
pub open spec fn is_fid_of(k: Option<ForumIdKind>, f: Fields) -> bool {
    match nonzero_field(f, "fid"@) {
        Some(v) => k is Some && k->0 is Fid && k->0.raw() == v,
        None => k is None,
    }
}

/// Whether `t` is the topic that the fields describe. The flags are the
/// bits of `type`: 0x10 locked, 0x20 bold, 0x400 pinned, 0x4000 assembly.
pub open spec fn is_topic(t: Topic, f: Fields) -> bool {
    &&& Some(t.id.0@) == topic_id_of(f)
    &&& is_fid_of(t.forum_id, f)
    &&& strs_of(t.subject.tags@) == subject_of(unescaped(text_of_field(f, "subject"@))).0
    &&& t.subject.content@ == subject_of(unescaped(text_of_field(f, "subject"@))).1
    &&& t.author.model() == bare_user(text_of_field(f, "authorid"@), name_field(f, "author"@))
    &&& t.post_date == i64_or(f, "postdate"@, 0)
    &&& t.last_post_date == i64_or(f, "lastpost"@, 0)
    &&& t.replies == i32_or(f, "replies"@, 0)
    &&& t.last_poster@ == text_of_field(f, "lastposter"@)
    &&& t.is_locked == (u64_or(f, "type"@, 0) & 0x10 != 0)
    &&& t.is_bold == (u64_or(f, "type"@, 0) & 0x20 != 0)
    &&& t.is_assembly == (u64_or(f, "type"@, 0) & 0x4000 != 0)
    &&& t.is_topped == (u64_or(f, "type"@, 0) & 0x400 != 0)
    &&& t.topic_type == match i32_field(f, "type"@) {
        Some(v) => topic_type_of(v),
        None => TopicType::Normal,
    }
    &&& t.parent_id is None
    &&& t.recommend == i32_or(f, "recommend"@, 0)
}

/// Maps one topic node. A node without an identifier is no topic.
pub fn parse_topic(node: &XmlNode) -> (r: Result<Option<Topic>>)
    ensures
        match r {
            Ok(Some(t)) => is_topic(t, fields_of(node_model(*node))),
            Ok(None) => topic_id_of(fields_of(node_model(*node))) is None,
            Err(_) => false,
        },
{
    let attrs = node.attrs();
    let id = match get_nonzero(&attrs, "quote_from") {
        Some(v) => v,
        None => match attrs.get("tid") {
            Some(v) => v.clone(),
            None => {
                return Ok(None);
            },
        },
    };
    let (tags, content) = parse_subject(get_text(&attrs, "subject").as_str());
    let author = User::bare(
        UserId::new(get_text(&attrs, "authorid").as_str()),
        get_name(&attrs, "author"),
    );
    let typ: u64 = get_u64_or(&attrs, "type", 0);
    let forum_id = match get_nonzero(&attrs, "fid") {
        Some(v) => Some(ForumIdKind::fid(v.as_str())),
        None => None,
    };
    let topic_type = match get_i32(&attrs, "type") {
        Some(v) => TopicType::from(v),
        None => TopicType::Normal,
    };
    Ok(
        Some(
            Topic {
                id: TopicId::new(id.as_str()),
                forum_id,
                subject: Subject::new(tags, content),
                author,
                post_date: get_i64_or(&attrs, "postdate", 0),
                last_post_date: get_i64_or(&attrs, "lastpost", 0),
                replies: get_i32_or(&attrs, "replies", 0),
                last_poster: get_text(&attrs, "lastposter"),
                is_locked: typ & 0x10 != 0,
                is_bold: typ & 0x20 != 0,
                is_assembly: typ & 0x4000 != 0,
                is_topped: typ & 0x400 != 0,
                topic_type,
                parent_id: None,
                recommend: get_i32_or(&attrs, "recommend", 0),
            },
        ),
    )
}

/// The address of the attachment that the fields describe: `attachurl`,
/// or `url` where there is none; no attachment where it is empty.
pub open spec fn attachment_url(f: Fields) -> Option<Seq<char>> {
    match either_field(f, "attachurl"@, "url"@) {
        Some(v) => if v.len() == 0 {
            None
        } else {
            Some(v)
        },
        None => None,
    }
}

/// The file extension of an attachment: the `ext` field; without one, what
/// follows the last `.` of the file name; without a file name, what
/// follows the last `.` of the address once its query, from the first `?`
/// on, is stripped.
pub open spec fn attachment_ext(f: Fields, url: Seq<char>) -> Seq<char> {
    match lookup(f, "ext"@) {
        Some(e) => e,
        None => if text_of_field(f, "name"@).len() > 0 {
            after_last(text_of_field(f, "name"@), '.')
        } else {
            after_last(before_first(url, '?'), '.')
        },
    }
}

/// The kind of an attachment: an image where the `type` field names one,
/// else what the extension stands for.
pub open spec fn attachment_kind(f: Fields, url: Seq<char>) -> AttachmentKind {
    let t = text_of_field(f, "type"@);
    if contains_seq(t, "img"@) || contains_seq(t, "image"@) {
        AttachmentKind::Image
    } else {
        kind_of_ext(attachment_ext(f, url))
    }
}

/// The width and height that a `type` field of the shape `kind:WxH` gives.
pub open spec fn dimensions_of(t: Seq<char>) -> Option<(u32, u32)> {
    let pieces = split(t, ':');
    if pieces.len() >= 2 {
        let d = split(pieces[1], 'x');
        if d.len() == 2 {
            match (parsed_u32(d[0]), parsed_u32(d[1])) {
                (Some(w), Some(h)) => Some((w, h)),
                _ => None,
            }
        } else {
            None
        }
    } else {
        None
    }
}

/// Whether `a` is the attachment that the fields describe.
pub open spec fn is_attachment(a: Attachment, f: Fields) -> bool {
    &&& Some(a.url@) == attachment_url(f)
    &&& a.name@ == if text_of_field(f, "name"@).len() == 0 {
        after_last(a.url@, '/')
    } else {
        text_of_field(f, "name"@)
    }
    &&& a.size == i64_or(f, "size"@, 0)
    &&& a.kind == attachment_kind(f, a.url@)
    &&& opt_view(a.thumb_url) == nonempty_field(f, "thumb"@)
    &&& a.dimensions == dimensions_of(text_of_field(f, "type"@))
}

/// Reads the dimensions in a `type` field.
pub fn parse_dimensions(t: &Vec<char>) -> (r: Option<(u32, u32)>)
    ensures
        r == dimensions_of(t@),
{
    let pieces = split_chars(t, ':');
    if pieces.len() < 2 {
        return None;
    }
    assert(seqs_of(pieces@)[1] == pieces@[1]@);
    let d = split_chars(&pieces[1], 'x');
    if d.len() != 2 {
        return None;
    }
    assert(seqs_of(d@)[0] == d@[0]@);
    assert(seqs_of(d@)[1] == d@[1]@);
    match (parse_u32(&d[0]), parse_u32(&d[1])) {
        (Some(w), Some(h)) => Some((w, h)),
        _ => None,
    }
}

/// Parse a single attachment from an XML node.
pub fn parse_attachment(node: &XmlNode) -> (r: Option<Attachment>)
    ensures
        match r {
            Some(a) => is_attachment(a, fields_of(node_model(*node))),
            None => attachment_url(fields_of(node_model(*node))) is None,
        },
{
    let attrs = node.attrs();
    let url = match get_either(&attrs, "attachurl", "url") {
        Some(u) => u,
        None => {
            return None;
        },
    };
    if url.as_str().is_empty() {
        return None;
    }
    let url_chars = chars_of(url.as_str());
    let explicit_type = chars_of(get_text(&attrs, "type").as_str());
    let name = get_text(&attrs, "name");
    let name_chars = chars_of(name.as_str());
    let ext = match attrs.get("ext") {
        Some(e) => e.clone(),
        None => if name_chars.len() > 0 {
            string_of(&tail_after(&name_chars, '.'))
        } else {
            string_of(&tail_after(&head_before(&url_chars, '?'), '.'))
        },
    };
    let kind = if contains(&explicit_type, &chars_of("img")) || contains(
        &explicit_type,
        &chars_of("image"),
    ) {
        AttachmentKind::Image
    } else {
        AttachmentKind::from_ext(ext.as_str())
    };
    let shown = if name_chars.len() == 0 {
        string_of(&tail_after(&url_chars, '/'))
    } else {
        name
    };
    Some(
        Attachment {
            url,
            name: shown,
            size: get_i64_or(&attrs, "size", 0),
            kind,
            thumb_url: get_nonempty(&attrs, "thumb"),
            dimensions: parse_dimensions(&explicit_type),
        },
    )
}

/// Whether `out` lists, in order, the attachments of those among `nodes`
/// that have an address.
pub open spec fn are_attachments(nodes: Seq<NodeModel>, out: Seq<Attachment>) -> bool
    decreases nodes.len(),
{
    if nodes.len() == 0 {
        out.len() == 0
    } else if attachment_url(fields_of(nodes.last())) is Some {
        &&& out.len() > 0
        &&& is_attachment(out.last(), fields_of(nodes.last()))
        &&& are_attachments(nodes.drop_last(), out.drop_last())
    } else {
        are_attachments(nodes.drop_last(), out)
    }
}

/// The nodes that hold a post's attachments: the `item` children of its
/// first `attachs` child.
pub open spec fn attachment_nodes(m: NodeModel) -> Seq<NodeModel> {
    let holders = children_named_of(m, "attachs"@);
    if holders.len() > 0 {
        children_named_of(holders[0], "item"@)
    } else {
        Seq::empty()
    }
}

/// Parse attachments from a post node.
pub fn parse_attachments(node: &XmlNode) -> (r: Vec<Attachment>)
    ensures
        are_attachments(attachment_nodes(node_model(*node)), r@),
{
    let mut out: Vec<Attachment> = Vec::new();
    let holder = match node.child_named("attachs") {
        Some(n) => n,
        None => {
            return out;
        },
    };
    let items = holder.children_named("item");
    let ghost all = ref_models(items@);
    let mut i: usize = 0;
    assert(all.subrange(0, 0) =~= Seq::<NodeModel>::empty());
    while i < items.len()
        invariant
            i <= items.len(),
            all == ref_models(items@),
            are_attachments(all.subrange(0, i as int), out@),
        decreases items.len() - i,
    {
        let ghost before = out@;
        assert(all.subrange(0, i + 1).drop_last() =~= all.subrange(0, i as int));
        assert(all.subrange(0, i + 1).last() == node_model(*items@[i as int]));
        match parse_attachment(items[i]) {
            Some(a) => {
                out.push(a);
                assert(out@.drop_last() =~= before);
            },
            None => {},
        }
        i = i + 1;
    }
    assert(all.subrange(0, i as int) =~= all);
    out
}

/// The models of a list of users.
pub open spec fn user_models(users: Seq<User>) -> Seq<UserModel> {
    Seq::new(users.len(), |i: int| users[i].model())
}

/// The user with the identifier `id`: the last of them in the list.
pub open spec fn user_with_id(users: Seq<UserModel>, id: Seq<char>) -> Option<UserModel>
    decreases users.len(),
{
    if users.len() == 0 {
        None
    } else if users.last().id == id {
        Some(users.last())
    } else {
        user_with_id(users.drop_last(), id)
    }
}

/// Finds the user with the identifier `id`.
pub fn find_user(users: &Vec<User>, id: &str) -> (r: Option<User>)
    ensures
        match r {
            Some(u) => user_with_id(user_models(users@), id@) == Some(u.model()),
            None => user_with_id(user_models(users@), id@) is None,
        },
{
    let ghost all = user_models(users@);
    let mut j: usize = users.len();
    assert(all.subrange(0, j as int) =~= all);
    while j > 0
        invariant
            j <= users.len(),
            all == user_models(users@),
            user_with_id(all, id@) == user_with_id(all.subrange(0, j as int), id@),
        decreases j,
    {
        let ghost cur = all.subrange(0, j as int);
        assert(cur.drop_last() =~= all.subrange(0, j - 1));
        assert(cur.last() == users@[j - 1].model());
        if str_eq(users[j - 1].id.as_str(), id) {
            return Some(users[j - 1].duplicate());
        }
        j = j - 1;
    }
    None
}

/// Whether `p` is the post that the node describes, its author taken from
/// `users` where they list one with the post's `authorid`.
pub open spec fn is_post(p: Post, m: NodeModel, users: Seq<UserModel>) -> bool {
    let f = fields_of(m);
    &&& Some(p.id.0@) == lookup(f, "pid"@)
    &&& p.topic_id.0@ == text_of_field(f, "tid"@)
    &&& p.floor == i32_or(f, "lou"@, 0)
    &&& p.author.model() == match user_with_id(users, text_of_field(f, "authorid"@)) {
        Some(u) => u,
        None => bare_user(text_of_field(f, "authorid"@), NameModel::Anonymous),
    }
    &&& is_content_of(p.content, text_of_field(f, "content"@))
    &&& p.post_date == i64_or(f, "postdatetimestamp"@, 0)
    &&& p.edit_date == i64_field(f, "alterinfo"@)
    &&& p.is_edited == lookup(f, "alterinfo"@) is Some
    &&& are_attachments(attachment_nodes(m), p.attachments@)
    &&& p.vote == (VoteState { up: i32_or(f, "score"@, 0), down: 0, user_vote: None })
    &&& p.score == i32_or(f, "score"@, 0)
    &&& p.is_hidden == match i32_field(f, "score"@) {
        Some(s) => s < -50,
        None => false,
    }
    &&& opt_view(p.from_device) == lookup(f, "from_client"@)
    &&& opt_view(p.signature) == lookup(f, "signature"@)
    &&& p.hot_replies@.len() == 0
    &&& p.comments@.len() == 0
    &&& p.comment_count == i32_or(f, "comment_count"@, 0)
}

/// Maps one post node. A node without `pid` is no post.
pub fn parse_post(node: &XmlNode, users: &Vec<User>) -> (r: Result<Option<Post>>)
    ensures
        match r {
            Ok(Some(p)) => is_post(p, node_model(*node), user_models(users@)),
            Ok(None) => lookup(fields_of(node_model(*node)), "pid"@) is None,
            Err(_) => false,
        },
{
    let attrs = node.attrs();
    let id = match attrs.get("pid") {
        Some(pid) => pid.clone(),
        None => {
            return Ok(None);
        },
    };
    let author_id = get_text(&attrs, "authorid");
    let author = match find_user(users, author_id.as_str()) {
        Some(u) => u,
        None => User::bare(UserId::new(author_id.as_str()), UserName::Anonymous),
    };
    let content = parse_content(get_text(&attrs, "content").as_str());
    let score = get_i32_or(&attrs, "score", 0);
    let is_hidden = match get_i32(&attrs, "score") {
        Some(s) => s < -50,
        None => false,
    };
    Ok(
        Some(
            Post {
                id: PostId::new(id.as_str()),
                topic_id: TopicId::new(get_text(&attrs, "tid").as_str()),
                floor: get_i32_or(&attrs, "lou", 0),
                author,
                content,
                post_date: get_i64_or(&attrs, "postdatetimestamp", 0),
                edit_date: get_i64(&attrs, "alterinfo"),
                is_edited: attrs.contains_key("alterinfo"),
                attachments: parse_attachments(node),
                vote: VoteState { up: score, down: 0, user_vote: None },
                score,
                is_hidden,
                from_device: get_opt(&attrs, "from_client"),
                signature: get_opt(&attrs, "signature"),
                hot_replies: Vec::new(),
                comments: Vec::new(),
                comment_count: get_i32_or(&attrs, "comment_count", 0),
            },
        ),
    )
}

/// A subforum entry.
#[derive(Debug, Clone)]
pub struct Subforum {
    /// Forum information.
    pub forum: Forum,
    /// Filter ID for blocking.
    pub filter_id: String,
    /// Whether this subforum can be filtered.
    pub filterable: bool,
    /// Whether this subforum is currently selected/active.
    pub selected: bool,
}

impl Default for Subforum {
    fn default() -> (r: Self)
        ensures
            r.forum.id is None,
            r.filter_id@.len() == 0,
            !r.filterable,
            !r.selected,
    {
        Subforum {
            forum: Forum::default(),
            filter_id: String::new(),
            filterable: false,
            selected: false,
        }
    }
}

/// The text of the child element at index `i`, empty where there is none.
pub open spec fn child_text(children: Seq<NodeModel>, i: int) -> Seq<char> {
    if 0 <= i < children.len() {
        text_of(children[i])
    } else {
        Seq::empty()
    }
}

/// Whether the attribute bits of a subforum mark it as selected.
pub open spec fn marks_selected(attributes: u64) -> bool {
    attributes == 7 || attributes == 558 || attributes == 542 || attributes == 2606 || attributes
        == 2590 || attributes == 4654
}

/// Whether `s` is the subforum that the node describes. Its child elements
/// hold, in this order, the identifier, the name, the description, the
/// filter identifier and the attribute bits. An `item` node addresses a
/// regular forum, any other a topic collection.
pub open spec fn is_subforum(s: Subforum, m: NodeModel) -> bool {
    let c = children_of(m);
    let attributes = match parsed_u64(child_text(c, 4)) {
        Some(a) => a,
        None => 0,
    };
    &&& c.len() > 0
    &&& s.forum.id is Some
    &&& s.forum.id->0.raw() == text_of(c[0])
    &&& (s.forum.id->0 is Fid) == (name_of(m) == "item"@)
    &&& s.forum.name@ == child_text(c, 1)
    &&& s.forum.info@ == child_text(c, 2)
    &&& s.forum.icon_url@ == icon_url_of(text_of(c[0]))
    &&& s.forum.topped_topic_id@.len() == 0
    &&& s.filter_id@ == child_text(c, 3)
    &&& s.filterable == (attributes > 40)
    &&& s.selected == marks_selected(attributes)
}

/// The text of the child at index `i`.
pub fn text_at(children: &Vec<&XmlNode>, i: usize) -> (r: String)
    ensures
        r@ == child_text(ref_models(children@), i as int),
{
    if i < children.len() {
        assert(ref_models(children@)[i as int] == node_model(*children@[i as int]));
        children[i].text()
    } else {
        String::new()
    }
}

/// Maps one subforum node. A node without child elements is no subforum.
pub fn parse_subforum(node: &XmlNode) -> (r: Option<Subforum>)
    ensures
        match r {
            Some(s) => is_subforum(s, node_model(*node)),
            None => children_of(node_model(*node)).len() == 0,
        },
{
    let is_fid = str_eq(node.name(), "item");
    let children = node.children();
    if children.len() == 0 {
        return None;
    }
    let id = text_at(&children, 0);
    let attributes: u64 = match parse_u64(&chars_of(text_at(&children, 4).as_str())) {
        Some(a) => a,
        None => 0,
    };
    let forum_id = if is_fid {
        ForumIdKind::fid(id.as_str())
    } else {
        ForumIdKind::stid(id.as_str())
    };
    Some(
        Subforum {
            forum: Forum {
                id: Some(forum_id),
                name: text_at(&children, 1),
                info: text_at(&children, 2),
                icon_url: icon_url(id.as_str()),
                topped_topic_id: String::new(),
            },
            filter_id: text_at(&children, 3),
            filterable: attributes > 40,
            selected: attributes == 7 || attributes == 558 || attributes == 542 || attributes
                == 2606 || attributes == 2590 || attributes == 4654,
        },
    )
}

/// Whether `forum` is the forum that the fields of a listing's header
/// describe. Its identifier is `fid`, or `stid` where there is no `fid`;
/// it addresses a topic collection whenever `stid` is present.
pub open spec fn is_header_forum(forum: Forum, f: Fields) -> bool {
    &&& forum.id is Some
    &&& Some(forum.id->0.raw()) == either_field(f, "fid"@, "stid"@)
    &&& (forum.id->0 is Stid) == lookup(f, "stid"@) is Some
    &&& forum.name@ == text_of_field(f, "name"@)
    &&& forum.info@ == text_of_field(f, "info"@)
    &&& forum.icon_url@ == icon_url_of(forum.id->0.raw())
    &&& forum.topped_topic_id@ == text_of_field(f, "topped_topic"@)
}

/// Maps the header node of a topic listing to its forum.
pub fn parse_forum_from_node(node: &XmlNode) -> (r: Option<Forum>)
    ensures
        match r {
            Some(forum) => is_header_forum(forum, fields_of(node_model(*node))),
            None => either_field(fields_of(node_model(*node)), "fid"@, "stid"@) is None,
        },
{
    let attrs = node.attrs();
    let id = match get_either(&attrs, "fid", "stid") {
        Some(v) => v,
        None => {
            return None;
        },
    };
    let forum_id = if attrs.contains_key("stid") {
        ForumIdKind::stid(id.as_str())
    } else {
        ForumIdKind::fid(id.as_str())
    };
    Some(
        Forum {
            id: Some(forum_id),
            name: get_text(&attrs, "name"),
            info: get_text(&attrs, "info"),
            icon_url: icon_url(id.as_str()),
            topped_topic_id: get_text(&attrs, "topped_topic"),
        },
    )
}

/// The number of pages of a response: the row count at `rows_path` at the
/// page size at `page_path`, which is `per_page` where the response gives
/// none or gives zero. Both numbers are taken modulo two to the 32.
pub open spec fn pages_of(
    xml: Seq<char>,
    rows_path: Seq<char>,
    page_path: Seq<char>,
    per_page: u32,
) -> int {
    let rows = low_u32(query_int_or(xml, rows_path, 0));
    let hint = low_u32(query_int_or(xml, page_path, per_page as i64));
    pages_for(
        rows as int,
        if hint > 0 {
            hint as int
        } else {
            per_page as int
        },
    )
}

/// Reads the number of pages off a response.
pub fn parse_pages(doc: &XmlDocument, rows_path: &str, page_path: &str, per_page: u32) -> (r: u32)
    requires
        per_page > 0,
    ensures
        r == pages_of(doc.source(), rows_path@, page_path@, per_page),
        r >= 1,
{
    let rows = to_low_u32(doc.int_or(rows_path, 0));
    let hint = to_low_u32(doc.int_or(page_path, per_page as i64));
    total_pages(
        rows,
        if hint > 0 {
            hint
        } else {
            per_page
        },
    )
}

/// Whether `out` lists, in order, the topics of those among `nodes` that
/// have an identifier.
pub open spec fn are_topics(nodes: Seq<NodeModel>, out: Seq<Topic>) -> bool
    decreases nodes.len(),
{
    if nodes.len() == 0 {
        out.len() == 0
    } else if topic_id_of(fields_of(nodes.last())) is Some {
        &&& out.len() > 0
        &&& is_topic(out.last(), fields_of(nodes.last()))
        &&& are_topics(nodes.drop_last(), out.drop_last())
    } else {
        are_topics(nodes.drop_last(), out)
    }
}

/// The users that the nodes describe, in order: one for each node with a
/// `uid`.
pub open spec fn users_of(nodes: Seq<NodeModel>) -> Seq<UserModel>
    decreases nodes.len(),
{
    if nodes.len() == 0 {
        Seq::empty()
    } else {
        match lookup(fields_of(nodes.last()), "uid"@) {
            Some(id) => users_of(nodes.drop_last()).push(user_of(id, fields_of(nodes.last()))),
            None => users_of(nodes.drop_last()),
        }
    }
}

/// Whether `out` lists, in order, the posts of those among `nodes` that
/// have a `pid`.
pub open spec fn are_posts(nodes: Seq<NodeModel>, users: Seq<UserModel>, out: Seq<Post>) -> bool
    decreases nodes.len(),
{
    if nodes.len() == 0 {
        out.len() == 0
    } else if lookup(fields_of(nodes.last()), "pid"@) is Some {
        &&& out.len() > 0
        &&& is_post(out.last(), nodes.last(), users)
        &&& are_posts(nodes.drop_last(), users, out.drop_last())
    } else {
        are_posts(nodes.drop_last(), users, out)
    }
}

/// Whether `out` lists, in order, the subforums of those among `nodes`
/// that have child elements.
pub open spec fn are_subforums(nodes: Seq<NodeModel>, out: Seq<Subforum>) -> bool
    decreases nodes.len(),
{
    if nodes.len() == 0 {
        out.len() == 0
    } else if children_of(nodes.last()).len() > 0 {
        &&& out.len() > 0
        &&& is_subforum(out.last(), nodes.last())
        &&& are_subforums(nodes.drop_last(), out.drop_last())
    } else {
        are_subforums(nodes.drop_last(), out)
    }
}

/// Maps topic nodes, in order, passing over those without an identifier.
pub fn topics_from(nodes: &Vec<XmlNode>) -> (r: Vec<Topic>)
    ensures
        are_topics(node_models(nodes@), r@),
{
    let ghost all = node_models(nodes@);
    let mut out: Vec<Topic> = Vec::new();
    let mut i: usize = 0;
    assert(all.subrange(0, 0) =~= Seq::<NodeModel>::empty());
    while i < nodes.len()
        invariant
            i <= nodes.len(),
            all == node_models(nodes@),
            are_topics(all.subrange(0, i as int), out@),
        decreases nodes.len() - i,
    {
        let ghost before = out@;
        assert(all.subrange(0, i + 1).drop_last() =~= all.subrange(0, i as int));
        assert(all.subrange(0, i + 1).last() == node_model(nodes@[i as int]));
        match parse_topic(&nodes[i]) {
            Ok(Some(t)) => {
                out.push(t);
                assert(out@.drop_last() =~= before);
            },
            _ => {},
        }
        i = i + 1;
    }
    assert(all.subrange(0, i as int) =~= all);
    out
}

/// Maps user nodes, in order, passing over those without `uid`.
pub fn users_from(nodes: &Vec<XmlNode>) -> (r: Vec<User>)
    ensures
        user_models(r@) == users_of(node_models(nodes@)),
{
    let ghost all = node_models(nodes@);
    let mut out: Vec<User> = Vec::new();
    let mut i: usize = 0;
    assert(all.subrange(0, 0) =~= Seq::<NodeModel>::empty());
    assert(user_models(out@) =~= Seq::<UserModel>::empty());
    while i < nodes.len()
        invariant
            i <= nodes.len(),
            all == node_models(nodes@),
            user_models(out@) == users_of(all.subrange(0, i as int)),
        decreases nodes.len() - i,
    {
        let ghost before = user_models(out@);
        assert(all.subrange(0, i + 1).drop_last() =~= all.subrange(0, i as int));
        assert(all.subrange(0, i + 1).last() == node_model(nodes@[i as int]));
        match parse_user(&nodes[i]) {
            Ok(Some(u)) => {
                out.push(u);
                assert(user_models(out@) =~= before.push(u.model()));
            },
            _ => {},
        }
        i = i + 1;
    }
    assert(all.subrange(0, i as int) =~= all);
    out
}

/// Maps post nodes, in order, passing over those without `pid`.
pub fn posts_from(nodes: &Vec<XmlNode>, users: &Vec<User>) -> (r: Vec<Post>)
    ensures
        are_posts(node_models(nodes@), user_models(users@), r@),
{
    let ghost all = node_models(nodes@);
    let mut out: Vec<Post> = Vec::new();
    let mut i: usize = 0;
    assert(all.subrange(0, 0) =~= Seq::<NodeModel>::empty());
    while i < nodes.len()
        invariant
            i <= nodes.len(),
            all == node_models(nodes@),
            are_posts(all.subrange(0, i as int), user_models(users@), out@),
        decreases nodes.len() - i,
    {
        let ghost before = out@;
        assert(all.subrange(0, i + 1).drop_last() =~= all.subrange(0, i as int));
        assert(all.subrange(0, i + 1).last() == node_model(nodes@[i as int]));
        match parse_post(&nodes[i], users) {
            Ok(Some(p)) => {
                out.push(p);
                assert(out@.drop_last() =~= before);
            },
            _ => {},
        }
        i = i + 1;
    }
    assert(all.subrange(0, i as int) =~= all);
    out
}

/// Maps subforum nodes, in order, passing over those without children.
pub fn subforums_from(nodes: &Vec<XmlNode>) -> (r: Vec<Subforum>)
    ensures
        are_subforums(node_models(nodes@), r@),
{
    let ghost all = node_models(nodes@);
    let mut out: Vec<Subforum> = Vec::new();
    let mut i: usize = 0;
    assert(all.subrange(0, 0) =~= Seq::<NodeModel>::empty());
    while i < nodes.len()
        invariant
            i <= nodes.len(),
            all == node_models(nodes@),
            are_subforums(all.subrange(0, i as int), out@),
        decreases nodes.len() - i,
    {
        let ghost before = out@;
        assert(all.subrange(0, i + 1).drop_last() =~= all.subrange(0, i as int));
        assert(all.subrange(0, i + 1).last() == node_model(nodes@[i as int]));
        match parse_subforum(&nodes[i]) {
            Some(s) => {
                out.push(s);
                assert(out@.drop_last() =~= before);
            },
            None => {},
        }
        i = i + 1;
    }
    assert(all.subrange(0, i as int) =~= all);
    out
}

/// Result of a topic list request.
#[derive(Debug, Clone)]
pub struct TopicListResult {
    /// Topics in the list.
    pub topics: Vec<Topic>,
    /// Forum information.
    pub forum: Option<Forum>,
    /// Subforums.
    pub subforums: Vec<Subforum>,
    /// Total number of pages.
    pub total_pages: u32,
    /// Current page.
    pub page: u32,
}

impl Default for TopicListResult {
    fn default() -> (r: Self)
        ensures
            r.topics@.len() == 0,
            r.forum is None,
            r.subforums@.len() == 0,
            r.total_pages == 0,
            r.page == 0,
    {
        TopicListResult {
            topics: Vec::new(),
            forum: None,
            subforums: Vec::new(),
            total_pages: 0,
            page: 0,
        }
    }
}

/// Result of a topic details request.
#[derive(Debug, Clone)]
pub struct TopicDetailsResult {
    /// The topic.
    pub topic: Topic,
    /// Posts/replies.
    pub posts: Vec<Post>,
    /// Forum name.
    pub forum_name: String,
    /// Total number of pages.
    pub total_pages: u32,
    /// Current page.
    pub page: u32,
}

impl Default for TopicDetailsResult {
    fn default() -> (r: Self)
        ensures
            r.topic.is_bare("0"@),
            r.posts@.len() == 0,
            r.forum_name@.len() == 0,
            r.total_pages == 0,
            r.page == 0,
    {
        TopicDetailsResult {
            topic: Topic::default(),
            posts: Vec::new(),
            forum_name: String::new(),
            total_pages: 0,
            page: 0,
        }
    }
}

/// Whether `res` is the list of topics in the response `xml`: its topic
/// items, no forum or subforums, the page count at 35 rows a page, and
/// page one.
pub open spec fn is_topic_list(res: TopicListResult, xml: Seq<char>) -> bool {
    &&& query_nodes(xml, "/root/__T/item"@) matches Ok(nodes) && are_topics(nodes, res.topics@)
    &&& res.forum is None
    &&& res.subforums@.len() == 0
    &&& res.total_pages == pages_of(xml, "/root/__ROWS"@, "/root/__T__ROWS_PAGE"@, 35)
    &&& res.page == 1
}

/// Maps the response to a request for a list of topics.
pub fn parse_topic_list_response(xml: &str) -> (r: Result<TopicListResult>)
    ensures
        match r {
            Ok(res) => is_document(xml@) && is_topic_list(res, xml@),
            Err(e) => is_document_error(xml@, e) || (is_document(xml@) && is_query_error(
                xml@,
                "/root/__T/item"@,
                e,
            )),
        },
{
    let doc = match XmlDocument::parse(xml) {
        Ok(d) => d,
        Err(e) => {
            return Err(e);
        },
    };
    let nodes = match doc.select("/root/__T/item") {
        Ok(n) => n,
        Err(e) => {
            return Err(e);
        },
    };
    let topics = topics_from(&nodes);
    let total_pages = parse_pages(&doc, "/root/__ROWS", "/root/__T__ROWS_PAGE", 35);
    Ok(TopicListResult { topics, forum: None, subforums: Vec::new(), total_pages, page: 1 })
}

/// Whether `forum` is the forum in the header of the listing `xml`: that
/// of the first `/root/__F` node, none where the query fails, finds
/// nothing or the node has no identifier.
pub open spec fn is_listing_forum(forum: Option<Forum>, xml: Seq<char>) -> bool {
    match query_nodes(xml, "/root/__F"@) {
        Ok(nodes) => if nodes.len() > 0 && either_field(fields_of(nodes[0]), "fid"@, "stid"@)
            is Some {
            forum is Some && is_header_forum(forum->0, fields_of(nodes[0]))
        } else {
            forum is None
        },
        Err(_) => forum is None,
    }
}

/// Whether `res` is the listing in the response `xml`: the topics and page
/// count of the list, with the subforums and the forum of its header.
pub open spec fn is_topic_listing(res: TopicListResult, xml: Seq<char>) -> bool {
    &&& query_nodes(xml, "/root/__T/item"@) matches Ok(nodes) && are_topics(nodes, res.topics@)
    &&& query_nodes(xml, "/root/__F/sub_forums/*"@) matches Ok(subs) && are_subforums(
        subs,
        res.subforums@,
    )
    &&& is_listing_forum(res.forum, xml)
    &&& res.total_pages == pages_of(xml, "/root/__ROWS"@, "/root/__T__ROWS_PAGE"@, 35)
    &&& res.page == 1
}

/// Maps the response to a request for the topics of a forum: the list
/// together with the forum's header and its subforums.
pub fn parse_topic_listing(xml: &str) -> (r: Result<TopicListResult>)
    ensures
        match r {
            Ok(res) => is_document(xml@) && is_topic_listing(res, xml@),
            Err(e) => is_document_error(xml@, e) || (is_document(xml@) && (is_query_error(
                xml@,
                "/root/__T/item"@,
                e,
            ) || (query_nodes(xml@, "/root/__T/item"@) is Ok && is_query_error(
                xml@,
                "/root/__F/sub_forums/*"@,
                e,
            )))),
        },
{
    let list = match parse_topic_list_response(xml) {
        Ok(l) => l,
        Err(e) => {
            return Err(e);
        },
    };
    let doc = match XmlDocument::parse(xml) {
        Ok(d) => d,
        Err(e) => {
            return Err(e);
        },
    };
    let subs = match doc.select("/root/__F/sub_forums/*") {
        Ok(n) => n,
        Err(e) => {
            return Err(e);
        },
    };
    let subforums = subforums_from(&subs);
    let forum = match doc.select_one("/root/__F") {
        Ok(Some(node)) => parse_forum_from_node(&node),
        _ => None,
    };
    Ok(
        TopicListResult {
            topics: list.topics,
            forum,
            subforums,
            total_pages: list.total_pages,
            page: list.page,
        },
    )
}

/// The name of the forum in a details response: the text at
/// `/root/__F/name`, or at `/root/__F`, or empty.
pub open spec fn forum_name_of(xml: Seq<char>) -> Seq<char> {
    match query_text(xml, "/root/__F/name"@) {
        Some(t) => t,
        None => match query_text(xml, "/root/__F"@) {
            Some(t) => t,
            None => Seq::empty(),
        },
    }
}

/// Whether the response `xml` holds a topic: its first `/root/__T` node
/// has an identifier.
pub open spec fn has_topic(xml: Seq<char>) -> bool {
    query_nodes(xml, "/root/__T"@) matches Ok(nodes) && nodes.len() > 0 && topic_id_of(
        fields_of(nodes[0]),
    ) is Some
}

/// Whether `res` is what the details response `xml` holds for the page
/// `page`: the topic, the posts with their authors taken from the users
/// of the response, the forum's name and the page count at 20 rows a page.
pub open spec fn is_topic_details(res: TopicDetailsResult, xml: Seq<char>, page: u32) -> bool {
    &&& has_topic(xml)
    &&& is_topic(res.topic, fields_of(query_nodes(xml, "/root/__T"@)->Ok_0[0]))
    &&& query_nodes(xml, "/root/__U/item"@) matches Ok(user_nodes) && (query_nodes(
        xml,
        "/root/__R/item"@,
    ) matches Ok(post_nodes) && are_posts(post_nodes, users_of(user_nodes), res.posts@))
    &&& res.forum_name@ == forum_name_of(xml)
    &&& res.total_pages == pages_of(xml, "/root/__ROWS"@, "/root/__R__ROWS_PAGE"@, 20)
    &&& res.page == page
}

/// Whether `e` is the error with which mapping the details response `xml`
/// fails: that of the first query that fails, of the users, the topic and
/// the posts in this order, or the missing topic.
pub open spec fn is_details_error(xml: Seq<char>, e: Error) -> bool {
    if query_nodes(xml, "/root/__U/item"@) is Err {
        is_query_error(xml, "/root/__U/item"@, e)
    } else if query_nodes(xml, "/root/__T"@) is Err {
        is_query_error(xml, "/root/__T"@, e)
    } else if !has_topic(xml) {
        e matches Error::MissingField(f) && f@ == "topic"@
    } else {
        is_query_error(xml, "/root/__R/item"@, e)
    }
}

/// Maps the response to a request for a topic's details.
pub fn parse_topic_details_response(xml: &str, page: u32) -> (r: Result<TopicDetailsResult>)
    ensures
        match r {
            Ok(res) => is_document(xml@) && is_topic_details(res, xml@, page),
            Err(e) => is_document_error(xml@, e) || (is_document(xml@) && is_details_error(
                xml@,
                e,
            )),
        },
{
    let doc = match XmlDocument::parse(xml) {
        Ok(d) => d,
        Err(e) => {
            return Err(e);
        },
    };
    let user_nodes = match doc.select("/root/__U/item") {
        Ok(n) => n,
        Err(e) => {
            return Err(e);
        },
    };
    let users = users_from(&user_nodes);
    let topic = match doc.select_one("/root/__T") {
        Ok(Some(node)) => match parse_topic(&node) {
            Ok(Some(t)) => t,
            _ => {
                return Err(Error::missing("topic"));
            },
        },
        Ok(None) => {
            return Err(Error::missing("topic"));
        },
        Err(e) => {
            return Err(e);
        },
    };
    let post_nodes = match doc.select("/root/__R/item") {
        Ok(n) => n,
        Err(e) => {
            return Err(e);
        },
    };
    let posts = posts_from(&post_nodes, &users);
    let forum_name = match doc.string_opt("/root/__F/name") {
        Some(t) => t,
        None => match doc.string_opt("/root/__F") {
            Some(t) => t,
            None => String::new(),
        },
    };
    let total_pages = parse_pages(&doc, "/root/__ROWS", "/root/__R__ROWS_PAGE", 20);
    Ok(TopicDetailsResult { topic, posts, forum_name, total_pages, page })
}

} // verus!
