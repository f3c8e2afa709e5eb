//! The requests that the API sends, as plain values.
//!
//! A request names its endpoint, its query parameters and its form fields,
//! and says whether it needs credentials. Sending it is the transport's
//! business.

use crate::client::http::Params;
use crate::error::{Error, Result};
use crate::models::forum::{FavoriteForumOp, ForumIdKind, SubforumFilterOp};
use crate::models::ids::{PostId, TopicId};
use crate::models::notification::NotificationType;
use crate::models::post::Vote;
use crate::models::topic::{FavoriteTopicOp, SearchTimeRange, TopicOrder};
use crate::number::{decimal_text, format_u64};
use crate::parser::xml::entry_views;
use crate::text::{chars_of, trim, trimmed};
use vstd::prelude::*;

verus! {

/// One request to the API.
#[derive(Debug, Clone)]
pub struct ApiRequest {
    /// The endpoint: a path under the base URL, or an absolute URL.
    pub api: String,
    /// The query parameters.
    pub query: Vec<(String, String)>,
    /// The form fields.
    pub form: Vec<(String, String)>,
    /// Whether the request can only be sent with credentials. Such a
    /// request is sent once; any other takes part in format negotiation
    /// and carries the credentials if there are any.
    pub needs_auth: bool,
}

impl ApiRequest {
    /// Whether the request is the one to `api` with the given query, form
    /// and need of credentials.
    pub open spec fn is(&self, api: Seq<char>, query: Params, form: Params, needs_auth: bool) -> bool {
        &&& self.api@ == api
        &&& entry_views(self.query@) =~= query
        &&& entry_views(self.form@) =~= form
        &&& self.needs_auth == needs_auth
    }

    /// A request to `api` without parameters.
    pub fn to(api: &str, needs_auth: bool) -> (r: Self)
        ensures
            r.is(api@, Seq::empty(), Seq::empty(), needs_auth),
    {
        let r = ApiRequest { api: api.to_owned(), query: Vec::new(), form: Vec::new(), needs_auth };
        assert(entry_views(r.query@) =~= Seq::<(Seq<char>, Seq<char>)>::empty());
        assert(entry_views(r.form@) =~= Seq::<(Seq<char>, Seq<char>)>::empty());
        r
    }

    /// The request with one more query parameter.
    pub fn query(self, key: &str, value: &str) -> (r: Self)
        ensures
            r.is(
                self.api@,
                entry_views(self.query@).push((key@, value@)),
                entry_views(self.form@),
                self.needs_auth,
            ),
    {
        let mut r = self;
        r.query.push((key.to_owned(), value.to_owned()));
        assert(entry_views(r.query@) =~= entry_views(self.query@).push((key@, value@)));
        r
    }

    /// The request with one more form field.
    pub fn form(self, key: &str, value: &str) -> (r: Self)
        ensures
            r.is(
                self.api@,
                entry_views(self.query@),
                entry_views(self.form@).push((key@, value@)),
                self.needs_auth,
            ),
    {
        let mut r = self;
        r.form.push((key.to_owned(), value.to_owned()));
        assert(entry_views(r.form@) =~= entry_views(self.form@).push((key@, value@)));
        r
    }
}

/// The text of a page number.
pub fn page_text(page: u32) -> (r: String)
    ensures
        r@ == decimal_text(page as int),
{
    format_u64(page as u64)
}

/// `1` for a set flag, nothing for one that is not set.
pub open spec fn flag_text(flag: bool) -> Seq<char> {
    if flag {
        "1"@
    } else {
        Seq::empty()
    }
}

/// The text of a flag.
pub fn flag_param(flag: bool) -> (r: &'static str)
    ensures
        r@ == flag_text(flag),
{
    proof {
        reveal_strlit("");
    }
    let r = if flag {
        "1"
    } else {
        ""
    };
    assert(flag_text(flag) =~= r@);
    r
}

/// The text of an optional parameter: empty where there is none.
pub open spec fn opt_text(value: Option<String>) -> Seq<char> {
    match value {
        Some(v) => v@,
        None => Seq::empty(),
    }
}

/// The text of an optional parameter.
pub fn opt_param(value: &Option<String>) -> (r: &str)
    ensures
        r@ == opt_text(*value),
{
    proof {
        reveal_strlit("");
    }
    match value {
        Some(v) => v.as_str(),
        None => {
            assert(""@ =~= Seq::<char>::empty());
            ""
        },
    }
}

/// Whether text is blank: empty but for whitespace.
pub open spec fn is_blank(text: Seq<char>) -> bool {
    trimmed(text).len() == 0
}

/// Tests whether text is blank.
pub fn blank(text: &str) -> (r: bool)
    ensures
        r == is_blank(text@),
{
    trim(&chars_of(text)).len() == 0
}

/// API for forum operations.
#[derive(Debug, Clone, Copy)]
pub struct ForumApi {}

impl ForumApi {
    /// List all forum categories.
    pub fn list(&self) -> (r: ApiRequest)
        ensures
            r.is(
                "app_api.php"@,
                seq![("__lib"@, "home"@), ("__act"@, "category"@)],
                Seq::empty(),
                false,
            ),
    {
        ApiRequest::to("app_api.php", false).query("__lib", "home").query("__act", "category")
    }

    /// Search forums by keyword.
    pub fn search(&self, keyword: &str) -> (r: ApiRequest)
        ensures
            r.is("forum.php"@, seq![("key"@, keyword@)], Seq::empty(), false),
    {
        ApiRequest::to("forum.php", false).query("key", keyword)
    }

    /// Get favorite forums.
    pub fn favorites(&self) -> (r: ApiRequest)
        ensures
            r.is(
                "nuke.php"@,
                seq![("__lib"@, "forum_favor2"@), ("__act"@, "forum_favor"@)],
                seq![("action"@, "get"@)],
                true,
            ),
    {
        ApiRequest::to("nuke.php", true).query("__lib", "forum_favor2").query(
            "__act",
            "forum_favor",
        ).form("action", "get")
    }

    /// Modify favorite forums.
    pub fn modify_favorite(&self, forum_id: &ForumIdKind, op: FavoriteForumOp) -> (r: ApiRequest)
        ensures
            r.is(
                "nuke.php"@,
                seq![("__lib"@, "forum_favor2"@), ("__act"@, "forum_favor"@)],
                seq![
                    (
                        "action"@,
                        match op {
                            FavoriteForumOp::Add => "add"@,
                            FavoriteForumOp::Remove => "del"@,
                        },
                    ),
                    ("fid"@, forum_id.raw()),
                ],
                true,
            ),
    {
        ApiRequest::to("nuke.php", true).query("__lib", "forum_favor2").query(
            "__act",
            "forum_favor",
        ).form("action", op.param()).form("fid", forum_id.id())
    }

    /// Set subforum filter.
    pub fn set_subforum_filter(&self, forum_id: &str, subforum_filter_id: &str, op: SubforumFilterOp) -> (r:
        ApiRequest)
        ensures
            r.is(
                "nuke.php"@,
                seq![
                    ("__lib"@, "user_option"@),
                    ("__act"@, "set"@),
                    (
                        match op {
                            SubforumFilterOp::Show => "del"@,
                            SubforumFilterOp::Block => "add"@,
                        },
                        subforum_filter_id@,
                    ),
                ],
                seq![("fid"@, forum_id@), ("type"@, "1"@), ("info"@, "add_to_block_tids"@)],
                true,
            ),
    {
        ApiRequest::to("nuke.php", true).query("__lib", "user_option").query("__act", "set").query(
            op.param(),
            subforum_filter_id,
        ).form("fid", forum_id).form("type", "1").form("info", "add_to_block_tids")
    }
}

/// Builder for topic list requests.
#[derive(Debug, Clone)]
pub struct TopicListBuilder {
    pub forum_id: ForumIdKind,
    pub page: u32,
    pub order: TopicOrder,
    pub recommended_only: bool,
}

impl TopicListBuilder {
    /// Set the page number.
    pub fn page(self, page: u32) -> (r: Self)
        ensures
            r.page == page,
            r.forum_id == self.forum_id,
            r.order == self.order,
            r.recommended_only == self.recommended_only,
    {
        TopicListBuilder { page, ..self }
    }

    /// Set the sort order.
    pub fn order(self, order: TopicOrder) -> (r: Self)
        ensures
            r.order == order,
            r.forum_id == self.forum_id,
            r.page == self.page,
            r.recommended_only == self.recommended_only,
    {
        TopicListBuilder { order, ..self }
    }

    /// Only show recommended topics.
    pub fn recommended_only(self, recommended: bool) -> (r: Self)
        ensures
            r.recommended_only == recommended,
            r.forum_id == self.forum_id,
            r.page == self.page,
            r.order == self.order,
    {
        TopicListBuilder { recommended_only: recommended, ..self }
    }

    /// The request for the list.
    pub fn request(&self) -> (r: ApiRequest)
        ensures
            r.is(
                "thread.php"@,
                seq![
                    (
                        if self.forum_id is Fid {
                            "fid"@
                        } else {
                            "stid"@
                        },
                        self.forum_id.raw(),
                    ),
                    ("page"@, decimal_text(self.page as int)),
                    (
                        "order_by"@,
                        match self.order {
                            TopicOrder::LastPost => ""@,
                            TopicOrder::PostDate => "postdate"@,
                            TopicOrder::Recommend => "recommend"@,
                        },
                    ),
                    ("recommend"@, flag_text(self.recommended_only)),
                ],
                Seq::empty(),
                false,
            ),
    {
        ApiRequest::to("thread.php", false).query(
            self.forum_id.param_name(),
            self.forum_id.id(),
        ).query("page", page_text(self.page).as_str()).query("order_by", self.order.param()).query(
            "recommend",
            flag_param(self.recommended_only),
        )
    }
}

/// Builder for topic details requests.
#[derive(Debug, Clone)]
pub struct TopicDetailsBuilder {
    pub topic_id: TopicId,
    pub page: u32,
    pub fav: Option<String>,
    pub post_id: Option<String>,
    pub author_id: Option<String>,
    pub anonymous_only: bool,
}

impl TopicDetailsBuilder {
    /// Set the page number.
    pub fn page(self, page: u32) -> (r: Self)
        ensures
            r.page == page,
            r.topic_id == self.topic_id,
            r.fav == self.fav,
            r.post_id == self.post_id,
            r.author_id == self.author_id,
            r.anonymous_only == self.anonymous_only,
    {
        TopicDetailsBuilder { page, ..self }
    }

    /// Set the fav parameter.
    pub fn fav(self, fav: &str) -> (r: Self)
        ensures
            opt_text(r.fav) == fav@,
            r.fav is Some,
            r.topic_id == self.topic_id,
            r.page == self.page,
            r.post_id == self.post_id,
            r.author_id == self.author_id,
            r.anonymous_only == self.anonymous_only,
    {
        TopicDetailsBuilder { fav: Some(fav.to_owned()), ..self }
    }

    /// Jump to a specific post.
    pub fn post(self, post_id: &str) -> (r: Self)
        ensures
            opt_text(r.post_id) == post_id@,
            r.post_id is Some,
            r.topic_id == self.topic_id,
            r.page == self.page,
            r.fav == self.fav,
            r.author_id == self.author_id,
            r.anonymous_only == self.anonymous_only,
    {
        TopicDetailsBuilder { post_id: Some(post_id.to_owned()), ..self }
    }

    /// Filter to posts by a specific author.
    pub fn author(self, author_id: &str) -> (r: Self)
        ensures
            opt_text(r.author_id) == author_id@,
            r.author_id is Some,
            r.topic_id == self.topic_id,
            r.page == self.page,
            r.fav == self.fav,
            r.post_id == self.post_id,
            r.anonymous_only == self.anonymous_only,
    {
        TopicDetailsBuilder { author_id: Some(author_id.to_owned()), ..self }
    }

    /// Only show anonymous posts.
    pub fn anonymous_only(self, only: bool) -> (r: Self)
        ensures
            r.anonymous_only == only,
            r.topic_id == self.topic_id,
            r.page == self.page,
            r.fav == self.fav,
            r.post_id == self.post_id,
            r.author_id == self.author_id,
    {
        TopicDetailsBuilder { anonymous_only: only, ..self }
    }

    /// The request for the details.
    pub fn request(&self) -> (r: ApiRequest)
        ensures
            r.is(
                "read.php"@,
                seq![
                    ("tid"@, self.topic_id.0@),
                    ("page"@, decimal_text(self.page as int)),
                    ("fav"@, opt_text(self.fav)),
                    ("pid"@, opt_text(self.post_id)),
                    ("authorid"@, opt_text(self.author_id)),
                    (
                        "opt"@,
                        if self.anonymous_only {
                            "512"@
                        } else {
                            Seq::empty()
                        },
                    ),
                ],
                Seq::empty(),
                false,
            ),
    {
        proof {
            reveal_strlit("");
        }
        let opt = if self.anonymous_only {
            "512"
        } else {
            assert(""@ =~= Seq::<char>::empty());
            ""
        };
        ApiRequest::to("read.php", false).query("tid", self.topic_id.as_str()).query(
            "page",
            page_text(self.page).as_str(),
        ).query("fav", opt_param(&self.fav)).query("pid", opt_param(&self.post_id)).query(
            "authorid",
            opt_param(&self.author_id),
        ).query("opt", opt)
    }
}

/// Builder for topic search requests.
#[derive(Debug, Clone)]
pub struct TopicSearchBuilder {
    pub forum_id: ForumIdKind,
    pub keyword: String,
    pub page: u32,
    pub search_content: bool,
    pub recommended_only: bool,
    pub time_range: SearchTimeRange,
}

impl TopicSearchBuilder {
    /// Set the page number.
    pub fn page(self, page: u32) -> (r: Self)
        ensures
            r.page == page,
            r.forum_id == self.forum_id,
            r.keyword == self.keyword,
            r.search_content == self.search_content,
            r.recommended_only == self.recommended_only,
            r.time_range == self.time_range,
    {
        TopicSearchBuilder { page, ..self }
    }

    /// Search in post content, not just titles.
    pub fn search_content(self, search: bool) -> (r: Self)
        ensures
            r.search_content == search,
            r.forum_id == self.forum_id,
            r.keyword == self.keyword,
            r.page == self.page,
            r.recommended_only == self.recommended_only,
            r.time_range == self.time_range,
    {
        TopicSearchBuilder { search_content: search, ..self }
    }

    /// Only show recommended topics.
    pub fn recommended_only(self, recommended: bool) -> (r: Self)
        ensures
            r.recommended_only == recommended,
            r.forum_id == self.forum_id,
            r.keyword == self.keyword,
            r.page == self.page,
            r.search_content == self.search_content,
            r.time_range == self.time_range,
    {
        TopicSearchBuilder { recommended_only: recommended, ..self }
    }

    /// Set time range filter.
    pub fn time_range(self, range: SearchTimeRange) -> (r: Self)
        ensures
            r.time_range == range,
            r.forum_id == self.forum_id,
            r.keyword == self.keyword,
            r.page == self.page,
            r.search_content == self.search_content,
            r.recommended_only == self.recommended_only,
    {
        TopicSearchBuilder { time_range: range, ..self }
    }

    /// The request for the search. The time range is not sent.
    pub fn request(&self) -> (r: ApiRequest)
        ensures
            r.is(
                "thread.php"@,
                seq![
                    (
                        if self.forum_id is Fid {
                            "fid"@
                        } else {
                            "stid"@
                        },
                        self.forum_id.raw(),
                    ),
                    ("key"@, self.keyword@),
                    ("page"@, decimal_text(self.page as int)),
                    ("content"@, flag_text(self.search_content)),
                    ("recommend"@, flag_text(self.recommended_only)),
                ],
                Seq::empty(),
                false,
            ),
    {
        ApiRequest::to("thread.php", false).query(
            self.forum_id.param_name(),
            self.forum_id.id(),
        ).query("key", self.keyword.as_str()).query("page", page_text(self.page).as_str()).query(
            "content",
            flag_param(self.search_content),
        ).query("recommend", flag_param(self.recommended_only))
    }
}

/// Builder for favorite topics list.
#[derive(Debug, Clone)]
pub struct FavoriteTopicsBuilder {
    pub folder_id: Option<String>,
    pub page: u32,
}

impl FavoriteTopicsBuilder {
    /// Set the folder ID.
    pub fn folder(self, folder_id: &str) -> (r: Self)
        ensures
            r.folder_id is Some,
            opt_text(r.folder_id) == folder_id@,
            r.page == self.page,
    {
        FavoriteTopicsBuilder { folder_id: Some(folder_id.to_owned()), page: self.page }
    }

    /// Set the page number.
    pub fn page(self, page: u32) -> (r: Self)
        ensures
            r.page == page,
            r.folder_id == self.folder_id,
    {
        FavoriteTopicsBuilder { folder_id: self.folder_id, page }
    }

    /// The request for the list.
    pub fn request(&self) -> (r: ApiRequest)
        ensures
            r.is(
                "thread.php"@,
                seq![
                    ("favor"@, opt_text(self.folder_id)),
                    ("page"@, decimal_text(self.page as int)),
                ],
                Seq::empty(),
                true,
            ),
    {
        ApiRequest::to("thread.php", true).query("favor", opt_param(&self.folder_id)).query(
            "page",
            page_text(self.page).as_str(),
        )
    }
}

/// API for topic operations.
#[derive(Debug, Clone, Copy)]
pub struct TopicApi {}

impl TopicApi {
    /// Get topics from a forum: page one, ordered by last post.
    pub fn list(&self, forum_id: ForumIdKind) -> (r: TopicListBuilder)
        ensures
            r.forum_id == forum_id,
            r.page == 1,
            r.order == TopicOrder::LastPost,
            !r.recommended_only,
    {
        TopicListBuilder { forum_id, page: 1, order: TopicOrder::LastPost, recommended_only: false }
    }

    /// Get topic details and posts: page one, no filter.
    pub fn details(&self, topic_id: &str) -> (r: TopicDetailsBuilder)
        ensures
            r.topic_id.0@ == topic_id@,
            r.page == 1,
            r.fav is None,
            r.post_id is None,
            r.author_id is None,
            !r.anonymous_only,
    {
        TopicDetailsBuilder {
            topic_id: TopicId::new(topic_id),
            page: 1,
            fav: None,
            post_id: None,
            author_id: None,
            anonymous_only: false,
        }
    }

    /// Search topics in a forum: page one, titles only, all time.
    pub fn search(&self, forum_id: ForumIdKind, keyword: &str) -> (r: TopicSearchBuilder)
        ensures
            r.forum_id == forum_id,
            r.keyword@ == keyword@,
            r.page == 1,
            !r.search_content,
            !r.recommended_only,
            r.time_range == SearchTimeRange::All,
    {
        TopicSearchBuilder {
            forum_id,
            keyword: keyword.to_owned(),
            page: 1,
            search_content: false,
            recommended_only: false,
            time_range: SearchTimeRange::All,
        }
    }

    /// Get favorite topics: page one of the default folder.
    pub fn favorites(&self) -> (r: FavoriteTopicsBuilder)
        ensures
            r.folder_id is None,
            r.page == 1,
    {
        FavoriteTopicsBuilder { folder_id: None, page: 1 }
    }

    /// Get favorite folders.
    pub fn favorite_folders(&self) -> (r: ApiRequest)
        ensures
            r.is(
                "nuke.php"@,
                seq![("__lib"@, "topic_favor_v2"@), ("__act"@, "list_folder"@), ("page"@, "1"@)],
                Seq::empty(),
                true,
            ),
    {
        ApiRequest::to("nuke.php", true).query("__lib", "topic_favor_v2").query(
            "__act",
            "list_folder",
        ).query("page", "1")
    }

    /// Add or remove topic from favorites.
    pub fn modify_favorite(&self, topic_id: &str, folder_id: &str, op: FavoriteTopicOp) -> (r: ApiRequest)
        ensures
            r.is(
                "nuke.php"@,
                seq![
                    ("__lib"@, "topic_favor_v2"@),
                    (
                        "__act"@,
                        match op {
                            FavoriteTopicOp::Add => "add"@,
                            FavoriteTopicOp::Remove => "del"@,
                        },
                    ),
                ],
                seq![
                    (
                        match op {
                            FavoriteTopicOp::Add => "tid"@,
                            FavoriteTopicOp::Remove => "tidarray"@,
                        },
                        topic_id@,
                    ),
                    ("folder"@, folder_id@),
                ],
                true,
            ),
    {
        let (act, tid_key) = match op {
            FavoriteTopicOp::Add => ("add", "tid"),
            FavoriteTopicOp::Remove => ("del", "tidarray"),
        };
        ApiRequest::to("nuke.php", true).query("__lib", "topic_favor_v2").query("__act", act).form(
            tid_key,
            topic_id,
        ).form("folder", folder_id)
    }

    /// Get topics posted by a specific user.
    pub fn by_user(&self, user_id: &str, page: u32) -> (r: ApiRequest)
        ensures
            r.is(
                "thread.php"@,
                seq![("authorid"@, user_id@), ("page"@, decimal_text(page as int))],
                Seq::empty(),
                false,
            ),
    {
        ApiRequest::to("thread.php", false).query("authorid", user_id).query(
            "page",
            page_text(page).as_str(),
        )
    }
}

/// Builder for reply posts.
#[derive(Debug, Clone)]
pub struct ReplyBuilder {
    pub topic_id: TopicId,
    pub content: String,
    pub quote_post_id: Option<PostId>,
    pub attachments: Vec<String>,
    pub anonymous: bool,
}

/// The texts joined, a comma between each two.
pub open spec fn comma_joined(parts: Seq<Seq<char>>) -> Seq<char>
    decreases parts.len(),
{
    if parts.len() == 0 {
        Seq::empty()
    } else if parts.len() == 1 {
        parts[0]
    } else {
        comma_joined(parts.drop_last()) + seq![','] + parts.last()
    }
}

/// Joins texts with commas.
pub fn join_commas(parts: &Vec<String>) -> (r: String)
    ensures
        r@ == comma_joined(crate::text::strs_of(parts@)),
{
    let ghost all = crate::text::strs_of(parts@);
    let mut out: Vec<char> = Vec::new();
    let mut i: usize = 0;
    assert(all.subrange(0, 0) =~= Seq::<Seq<char>>::empty());
    while i < parts.len()
        invariant
            i <= parts.len(),
            all == crate::text::strs_of(parts@),
            out@ == comma_joined(all.subrange(0, i as int)),
        decreases parts.len() - i,
    {
        let ghost before = out@;
        assert(all.subrange(0, i + 1).drop_last() =~= all.subrange(0, i as int));
        assert(all.subrange(0, i + 1).last() == parts@[i as int]@);
        if i > 0 {
            out.push(',');
        }
        crate::text::extend(&mut out, &chars_of(parts[i].as_str()));
        proof {
            if i == 0 {
                assert(all.subrange(0, 1)[0] == parts@[0]@);
                assert(out@ =~= parts@[0]@);
            } else {
                assert(out@ =~= before + seq![','] + parts@[i as int]@);
            }
        }
        i = i + 1;
    }
    assert(all.subrange(0, i as int) =~= all);
    crate::text::string_of(&out)
}

impl ReplyBuilder {
    /// Set the reply content.
    pub fn content(self, content: &str) -> (r: Self)
        ensures
            r.content@ == content@,
            r.topic_id == self.topic_id,
            r.quote_post_id == self.quote_post_id,
            r.attachments == self.attachments,
            r.anonymous == self.anonymous,
    {
        ReplyBuilder { content: content.to_owned(), ..self }
    }

    /// Quote an existing post.
    pub fn quote(self, post_id: &str) -> (r: Self)
        ensures
            r.quote_post_id matches Some(p) && p.raw() == post_id@,
            r.topic_id == self.topic_id,
            r.content == self.content,
            r.attachments == self.attachments,
            r.anonymous == self.anonymous,
    {
        ReplyBuilder { quote_post_id: Some(PostId::new(post_id)), ..self }
    }

    /// Add an attachment.
    pub fn attachment(self, attachment_id: &str) -> (r: Self)
        ensures
            crate::text::strs_of(r.attachments@) == crate::text::strs_of(self.attachments@).push(
                attachment_id@,
            ),
            r.topic_id == self.topic_id,
            r.content == self.content,
            r.quote_post_id == self.quote_post_id,
            r.anonymous == self.anonymous,
    {
        let mut r = self;
        r.attachments.push(attachment_id.to_owned());
        assert(crate::text::strs_of(r.attachments@) =~= crate::text::strs_of(
            self.attachments@,
        ).push(attachment_id@));
        r
    }

    /// Post anonymously.
    pub fn anonymous(self, anon: bool) -> (r: Self)
        ensures
            r.anonymous == anon,
            r.topic_id == self.topic_id,
            r.content == self.content,
            r.quote_post_id == self.quote_post_id,
            r.attachments == self.attachments,
    {
        ReplyBuilder { anonymous: anon, ..self }
    }

    /// The request for the reply. A blank content is refused.
    pub fn request(&self) -> (r: Result<ApiRequest>)
        ensures
            match r {
                Ok(req) => !is_blank(self.content@) && req.is(
                    "post.php"@,
                    seq![
                        (
                            "action"@,
                            if self.quote_post_id is Some {
                                "quote"@
                            } else {
                                "reply"@
                            },
                        ),
                    ],
                    seq![
                        ("tid"@, self.topic_id.0@),
                        (
                            "pid"@,
                            match self.quote_post_id {
                                Some(p) => p.0@,
                                None => Seq::empty(),
                            },
                        ),
                        ("post_content"@, self.content@),
                        ("attachs"@, comma_joined(crate::text::strs_of(self.attachments@))),
                        ("anony"@, flag_text(self.anonymous)),
                    ],
                    true,
                ),
                Err(e) => is_blank(self.content@) && (e matches Error::InvalidArgument(m) && m@
                    == "Reply content cannot be empty"@),
            },
    {
        if blank(self.content.as_str()) {
            return Err(Error::InvalidArgument("Reply content cannot be empty".to_owned()));
        }
        proof {
            reveal_strlit("");
        }
        let (action, quoted) = match &self.quote_post_id {
            Some(p) => ("quote", p.as_str()),
            None => {
                assert(""@ =~= Seq::<char>::empty());
                ("reply", "")
            },
        };
        Ok(
            ApiRequest::to("post.php", true).query("action", action).form(
                "tid",
                self.topic_id.as_str(),
            ).form("pid", quoted).form("post_content", self.content.as_str()).form(
                "attachs",
                join_commas(&self.attachments).as_str(),
            ).form("anony", flag_param(self.anonymous)),
        )
    }
}

/// Builder for comment posts.
#[derive(Debug, Clone)]
pub struct CommentBuilder {
    pub topic_id: TopicId,
    pub post_id: PostId,
    pub content: String,
}

impl CommentBuilder {
    /// Set the comment content.
    pub fn content(self, content: &str) -> (r: Self)
        ensures
            r.content@ == content@,
            r.topic_id == self.topic_id,
            r.post_id == self.post_id,
    {
        CommentBuilder { content: content.to_owned(), ..self }
    }

    /// The request for the comment. A blank content is refused.
    pub fn request(&self) -> (r: Result<ApiRequest>)
        ensures
            match r {
                Ok(req) => !is_blank(self.content@) && req.is(
                    "nuke.php"@,
                    seq![("__lib"@, "post_comment"@), ("__act"@, "add"@)],
                    seq![
                        ("tid"@, self.topic_id.0@),
                        ("pid"@, self.post_id.0@),
                        ("content"@, self.content@),
                    ],
                    true,
                ),
                Err(e) => is_blank(self.content@) && (e matches Error::InvalidArgument(m) && m@
                    == "Comment content cannot be empty"@),
            },
    {
        if blank(self.content.as_str()) {
            return Err(Error::InvalidArgument("Comment content cannot be empty".to_owned()));
        }
        Ok(
            ApiRequest::to("nuke.php", true).query("__lib", "post_comment").query(
                "__act",
                "add",
            ).form("tid", self.topic_id.as_str()).form("pid", self.post_id.as_str()).form(
                "content",
                self.content.as_str(),
            ),
        )
    }
}

/// API for post operations.
#[derive(Debug, Clone, Copy)]
pub struct PostApi {}

impl PostApi {
    /// Vote on a post.
    pub fn vote(&self, topic_id: &str, post_id: &str, vote: Vote) -> (r: ApiRequest)
        ensures
            r.is(
                "nuke.php"@,
                seq![("__lib"@, "topic_recommend"@), ("__act"@, "add"@), ("raw"@, "3"@)],
                seq![
                    ("tid"@, topic_id@),
                    ("pid"@, post_id@),
                    (
                        "value"@,
                        match vote {
                            Vote::Up => "1"@,
                            Vote::Down => "0"@,
                        },
                    ),
                ],
                true,
            ),
    {
        ApiRequest::to("nuke.php", true).query("__lib", "topic_recommend").query(
            "__act",
            "add",
        ).query("raw", "3").form("tid", topic_id).form("pid", post_id).form("value", vote.param())
    }

    /// Get hot replies for a post.
    pub fn hot_replies(&self, topic_id: &str, post_id: &str) -> (r: ApiRequest)
        ensures
            r.is(
                "nuke.php"@,
                seq![
                    ("__lib"@, "post_recommend"@),
                    ("__act"@, "get"@),
                    ("pid"@, post_id@),
                    ("tid"@, topic_id@),
                ],
                Seq::empty(),
                false,
            ),
    {
        ApiRequest::to("nuke.php", false).query("__lib", "post_recommend").query(
            "__act",
            "get",
        ).query("pid", post_id).query("tid", topic_id)
    }

    /// Get comments on a post.
    pub fn comments(&self, topic_id: &str, post_id: &str, page: u32) -> (r: ApiRequest)
        ensures
            r.is(
                "nuke.php"@,
                seq![
                    ("__lib"@, "post_comment"@),
                    ("__act"@, "get"@),
                    ("pid"@, post_id@),
                    ("tid"@, topic_id@),
                    ("page"@, decimal_text(page as int)),
                ],
                Seq::empty(),
                false,
            ),
    {
        ApiRequest::to("nuke.php", false).query("__lib", "post_comment").query(
            "__act",
            "get",
        ).query("pid", post_id).query("tid", topic_id).query("page", page_text(page).as_str())
    }

    /// Create a reply to a topic.
    pub fn reply(&self, topic_id: &str) -> (r: ReplyBuilder)
        ensures
            r.topic_id.0@ == topic_id@,
            r.content@.len() == 0,
            r.quote_post_id is None,
            r.attachments@.len() == 0,
            !r.anonymous,
    {
        ReplyBuilder {
            topic_id: TopicId::new(topic_id),
            content: String::new(),
            quote_post_id: None,
            attachments: Vec::new(),
            anonymous: false,
        }
    }

    /// Create a comment on a post.
    pub fn comment(&self, topic_id: &str, post_id: &str) -> (r: CommentBuilder)
        ensures
            r.topic_id.0@ == topic_id@,
            r.post_id.0@ == post_id@,
            r.content@.len() == 0,
    {
        CommentBuilder {
            topic_id: TopicId::new(topic_id),
            post_id: PostId::new(post_id),
            content: String::new(),
        }
    }

    /// Fetch content for quoting a post.
    pub fn fetch_quote_content(&self, topic_id: &str, post_id: &str) -> (r: ApiRequest)
        ensures
            r.is(
                "post.php"@,
                seq![("action"@, "quote"@), ("tid"@, topic_id@), ("pid"@, post_id@)],
                Seq::empty(),
                true,
            ),
    {
        ApiRequest::to("post.php", true).query("action", "quote").query("tid", topic_id).query(
            "pid",
            post_id,
        )
    }

    /// Get posts by a specific user.
    pub fn by_user(&self, user_id: &str, page: u32) -> (r: ApiRequest)
        ensures
            r.is(
                "thread.php"@,
                seq![
                    ("searchpost"@, "1"@),
                    ("authorid"@, user_id@),
                    ("page"@, decimal_text(page as int)),
                ],
                Seq::empty(),
                false,
            ),
    {
        ApiRequest::to("thread.php", false).query("searchpost", "1").query(
            "authorid",
            user_id,
        ).query("page", page_text(page).as_str())
    }
}

/// API for user operations.
#[derive(Debug, Clone, Copy)]
pub struct UserApi {}

impl UserApi {
    /// Get user by ID.
    pub fn get(&self, user_id: &str) -> (r: ApiRequest)
        ensures
            r.is(
                "nuke.php"@,
                seq![("__lib"@, "ucp"@), ("__act"@, "get"@), ("uid"@, user_id@)],
                Seq::empty(),
                false,
            ),
    {
        ApiRequest::to("nuke.php", false).query("__lib", "ucp").query("__act", "get").query(
            "uid",
            user_id,
        )
    }

    /// Get user by username.
    pub fn get_by_name(&self, username: &str) -> (r: ApiRequest)
        ensures
            r.is(
                "nuke.php"@,
                seq![("__lib"@, "ucp"@), ("__act"@, "get"@), ("username"@, username@)],
                Seq::empty(),
                false,
            ),
    {
        ApiRequest::to("nuke.php", false).query("__lib", "ucp").query("__act", "get").query(
            "username",
            username,
        )
    }

    /// Search users.
    pub fn search(&self, keyword: &str) -> (r: ApiRequest)
        ensures
            r.is(
                "nuke.php"@,
                seq![("__lib"@, "ucp"@), ("__act"@, "search"@), ("key"@, keyword@)],
                Seq::empty(),
                false,
            ),
    {
        ApiRequest::to("nuke.php", false).query("__lib", "ucp").query("__act", "search").query(
            "key",
            keyword,
        )
    }
}

/// Builder for notification list requests.
#[derive(Debug, Clone)]
pub struct NotificationListBuilder {
    pub kind: NotificationType,
    pub page: u32,
}

impl NotificationListBuilder {
    /// Set the page number.
    pub fn page(self, page: u32) -> (r: Self)
        ensures
            r.page == page,
            r.kind == self.kind,
    {
        NotificationListBuilder { kind: self.kind, page }
    }

    /// The request for the list.
    pub fn request(&self) -> (r: ApiRequest)
        ensures
            r.is(
                "nuke.php"@,
                seq![
                    ("__lib"@, "noti"@),
                    ("__act"@, "get_list"@),
                    ("type"@, self.kind.param_text()),
                    ("page"@, decimal_text(self.page as int)),
                ],
                Seq::empty(),
                true,
            ),
    {
        ApiRequest::to("nuke.php", true).query("__lib", "noti").query("__act", "get_list").query(
            "type",
            self.kind.param(),
        ).query("page", page_text(self.page).as_str())
    }
}

/// API for notification operations.
#[derive(Debug, Clone, Copy)]
pub struct NotificationApi {}

impl NotificationApi {
    /// Get unread notification counts.
    pub fn counts(&self) -> (r: ApiRequest)
        ensures
            r.is(
                "nuke.php"@,
                seq![("__lib"@, "noti"@), ("__act"@, "get_all_unread"@)],
                Seq::empty(),
                true,
            ),
    {
        ApiRequest::to("nuke.php", true).query("__lib", "noti").query("__act", "get_all_unread")
    }

    /// Get notifications of a specific type: page one.
    pub fn list(&self, kind: NotificationType) -> (r: NotificationListBuilder)
        ensures
            r.kind == kind,
            r.page == 1,
    {
        NotificationListBuilder { kind, page: 1 }
    }

    /// Mark notification as read.
    pub fn mark_read(&self, notification_id: &str) -> (r: ApiRequest)
        ensures
            r.is(
                "nuke.php"@,
                seq![("__lib"@, "noti"@), ("__act"@, "read"@), ("id"@, notification_id@)],
                Seq::empty(),
                true,
            ),
    {
        ApiRequest::to("nuke.php", true).query("__lib", "noti").query("__act", "read").query(
            "id",
            notification_id,
        )
    }

    /// Mark all notifications of a type as read.
    pub fn mark_all_read(&self, kind: NotificationType) -> (r: ApiRequest)
        ensures
            r.is(
                "nuke.php"@,
                seq![("__lib"@, "noti"@), ("__act"@, "read_all"@), ("type"@, kind.param_text())],
                Seq::empty(),
                true,
            ),
    {
        ApiRequest::to("nuke.php", true).query("__lib", "noti").query("__act", "read_all").query(
            "type",
            kind.param(),
        )
    }
}

/// Builder for conversation message requests.
#[derive(Debug, Clone)]
pub struct ConversationBuilder {
    pub mid: String,
    pub page: u32,
}

impl ConversationBuilder {
    /// Set the page number.
    pub fn page(self, page: u32) -> (r: Self)
        ensures
            r.page == page,
            r.mid == self.mid,
    {
        ConversationBuilder { mid: self.mid, page }
    }

    /// The request for the messages.
    pub fn request(&self) -> (r: ApiRequest)
        ensures
            r.is(
                "nuke.php"@,
                seq![
                    ("__lib"@, "pm"@),
                    ("__act"@, "read"@),
                    ("mid"@, self.mid@),
                    ("page"@, decimal_text(self.page as int)),
                ],
                Seq::empty(),
                true,
            ),
    {
        ApiRequest::to("nuke.php", true).query("__lib", "pm").query("__act", "read").query(
            "mid",
            self.mid.as_str(),
        ).query("page", page_text(self.page).as_str())
    }
}

/// Builder for sending messages.
#[derive(Debug, Clone)]
pub struct SendMessageBuilder {
    pub to_username: String,
    pub subject: String,
    pub content: String,
    pub reply_mid: Option<String>,
}

impl SendMessageBuilder {
    /// Set the recipient username.
    pub fn to(self, username: &str) -> (r: Self)
        ensures
            r.to_username@ == username@,
            r.subject == self.subject,
            r.content == self.content,
            r.reply_mid == self.reply_mid,
    {
        SendMessageBuilder { to_username: username.to_owned(), ..self }
    }

    /// Set the message subject.
    pub fn subject(self, subject: &str) -> (r: Self)
        ensures
            r.subject@ == subject@,
            r.to_username == self.to_username,
            r.content == self.content,
            r.reply_mid == self.reply_mid,
    {
        SendMessageBuilder { subject: subject.to_owned(), ..self }
    }

    /// Set the message content.
    pub fn content(self, content: &str) -> (r: Self)
        ensures
            r.content@ == content@,
            r.to_username == self.to_username,
            r.subject == self.subject,
            r.reply_mid == self.reply_mid,
    {
        SendMessageBuilder { content: content.to_owned(), ..self }
    }

    /// The form of the message.
    pub open spec fn fields(&self) -> Params {
        let base = seq![
            ("to"@, self.to_username@),
            ("subject"@, self.subject@),
            ("content"@, self.content@),
        ];
        match self.reply_mid {
            Some(mid) => base.push(("mid"@, mid@)),
            None => base,
        }
    }

    /// The request for the message. A blank content is refused, and so is
    /// a new message without a recipient.
    pub fn request(&self) -> (r: Result<ApiRequest>)
        ensures
            match r {
                Ok(req) => !is_blank(self.content@) && (self.reply_mid is Some
                    || self.to_username@.len() > 0) && req.is(
                    "nuke.php"@,
                    seq![
                        ("__lib"@, "pm"@),
                        (
                            "__act"@,
                            if self.reply_mid is Some {
                                "reply"@
                            } else {
                                "send"@
                            },
                        ),
                    ],
                    self.fields(),
                    true,
                ),
                Err(e) => e matches Error::InvalidArgument(m) && (if is_blank(self.content@) {
                    m@ == "Message content cannot be empty"@
                } else {
                    self.reply_mid is None && self.to_username@.len() == 0 && m@
                        == "Recipient username is required"@
                }),
            },
    {
        if blank(self.content.as_str()) {
            return Err(Error::InvalidArgument("Message content cannot be empty".to_owned()));
        }
        let is_reply = self.reply_mid.is_some();
        if !is_reply && self.to_username.as_str().is_empty() {
            return Err(Error::InvalidArgument("Recipient username is required".to_owned()));
        }
        let act = if is_reply {
            "reply"
        } else {
            "send"
        };
        let req = ApiRequest::to("nuke.php", true).query("__lib", "pm").query("__act", act).form(
            "to",
            self.to_username.as_str(),
        ).form("subject", self.subject.as_str()).form("content", self.content.as_str());
        match &self.reply_mid {
            Some(mid) => Ok(req.form("mid", mid.as_str())),
            None => Ok(req),
        }
    }
}

/// API for short message operations.
#[derive(Debug, Clone, Copy)]
pub struct MessageApi {}

impl MessageApi {
    /// Get list of message conversations.
    pub fn list(&self, page: u32) -> (r: ApiRequest)
        ensures
            r.is(
                "nuke.php"@,
                seq![("__lib"@, "pm"@), ("__act"@, "list"@), ("page"@, decimal_text(page as int))],
                Seq::empty(),
                true,
            ),
    {
        ApiRequest::to("nuke.php", true).query("__lib", "pm").query("__act", "list").query(
            "page",
            page_text(page).as_str(),
        )
    }

    /// Get messages in a conversation: page one.
    pub fn conversation(&self, mid: &str) -> (r: ConversationBuilder)
        ensures
            r.mid@ == mid@,
            r.page == 1,
    {
        ConversationBuilder { mid: mid.to_owned(), page: 1 }
    }

    /// Send a new message.
    pub fn send_new(&self) -> (r: SendMessageBuilder)
        ensures
            r.to_username@.len() == 0,
            r.subject@.len() == 0,
            r.content@.len() == 0,
            r.reply_mid is None,
    {
        SendMessageBuilder {
            to_username: String::new(),
            subject: String::new(),
            content: String::new(),
            reply_mid: None,
        }
    }

    /// Reply to an existing conversation.
    pub fn reply(&self, mid: &str) -> (r: SendMessageBuilder)
        ensures
            r.to_username@.len() == 0,
            r.subject@.len() == 0,
            r.content@.len() == 0,
            r.reply_mid is Some,
            r.reply_mid->0@ == mid@,
    {
        SendMessageBuilder {
            to_username: String::new(),
            subject: String::new(),
            content: String::new(),
            reply_mid: Some(mid.to_owned()),
        }
    }
}

} // verus!
