use rnga::api::forum::{parse_category, parse_category_list, parse_favorite_folders, parse_forum, parse_forum_list};
use rnga::api::message::{parse_conversation, parse_message_list};
use rnga::api::notification::{extract_ids_from_url, parse_notification_counts, parse_notification_list};
use rnga::api::post::{
    parse_comment_response, parse_comments, parse_hot_replies, parse_quote_content,
    parse_reply_response, parse_user_posts, parse_vote_response,
};
use rnga::api::fields::{total_pages, to_low_i32, to_low_u32};
use rnga::api::topic::{
    parse_attachment, parse_post, parse_subforum, parse_topic, parse_topic_details_response,
    parse_topic_list_response, parse_topic_listing,
};
use rnga::api::user::{parse_user, parse_user_response, parse_user_search};
use rnga::api::{ApiRequest, SendMessageBuilder};
use rnga::client::NGAClient;
use rnga::error::Error;
use rnga::models::{
    AttachmentKind, FavoriteForumOp, FavoriteTopicOp, ForumIdKind, NotificationType,
    SubforumFilterOp, TopicOrder, TopicType, User, UserId, UserName, Vote,
};
use rnga::parser::xml::{XmlAttribute, XmlNode};

#[test]
fn test_extract_ids_from_url() {
    let url = "read.php?tid=12345&pid=67890";
    let (tid, pid) = extract_ids_from_url(url);

    assert_eq!(tid.unwrap().as_str(), "12345");
    assert_eq!(pid.unwrap().as_str(), "67890");
}

#[test]
fn test_message_builder() {
    let _ = SendMessageBuilder {
        to_username: "test".into(),
        subject: "Hello".into(),
        content: "Hi".into(),
        reply_mid: None,
    };
}

fn node(name: &str, attributes: &[(&str, &str)], children: Vec<XmlNode>) -> XmlNode {
    XmlNode::Element {
        name: name.to_string(),
        attributes: attributes
            .iter()
            .map(|(k, v)| XmlAttribute { name: k.to_string(), namespace: None, value: v.to_string() })
            .collect(),
        children,
    }
}

fn leaf(name: &str, text: &str) -> XmlNode {
    node(name, &[], vec![XmlNode::Text(text.to_string())])
}

fn pairs(list: &[(String, String)]) -> Vec<(&str, &str)> {
    list.iter().map(|(k, v)| (k.as_str(), v.as_str())).collect()
}

#[test]
fn pagination_of_a_hundred_rows() {
    assert_eq!(total_pages(100, 20), 5);
    assert_eq!(total_pages(0, 20), 1);
}

#[test]
fn pagination_rounds_up() {
    assert_eq!(total_pages(1, 20), 1);
    assert_eq!(total_pages(20, 20), 1);
    assert_eq!(total_pages(21, 20), 2);
    assert_eq!(total_pages(101, 20), 6);
    assert_eq!(total_pages(36, 35), 2);
    assert_eq!(total_pages(u32::MAX, 1), u32::MAX);
    assert_eq!(total_pages(u32::MAX, u32::MAX), 1);
    assert_eq!(total_pages(u32::MAX, 2), 2147483648);
    assert_eq!(to_low_u32(-1), u32::MAX);
    assert_eq!(to_low_u32(4294967296 + 5), 5);
    assert_eq!(to_low_u32(i64::MIN), 0);
    assert_eq!(to_low_i32(-1), -1);
    assert_eq!(to_low_i32(2147483648), i32::MIN);
    assert_eq!(to_low_i32(4294967297), 1);
    assert_eq!(to_low_i32(i64::MAX), -1);
}

#[test]
fn extract_ids_edge_cases() {
    let (tid, pid) = extract_ids_from_url("read.php?pid=9");
    assert!(tid.is_none());
    assert_eq!(pid.unwrap().as_str(), "9");
    let (tid, pid) = extract_ids_from_url("tid=&tid=x&tid=77abc");
    assert_eq!(tid.unwrap().as_str(), "77");
    assert!(pid.is_none());
    let (tid, pid) = extract_ids_from_url("");
    assert!(tid.is_none() && pid.is_none());
}

#[test]
fn topic_mapping() {
    let full = node(
        "item",
        &[
            ("tid", "100"),
            ("quote_from", "0"),
            ("fid", "7"),
            ("subject", "[News] Hello &amp;amp; bye"),
            ("authorid", "-5,ctx"),
            ("author", "Real(Nick)"),
            ("type", "17424"),
            ("postdate", "1700000000"),
            ("lastpost", "1700000100"),
            ("replies", "12"),
            ("lastposter", "bob"),
            ("recommend", "3"),
        ],
        vec![],
    );
    let topic = parse_topic(&full).unwrap().unwrap();
    assert_eq!(topic.id.as_str(), "100");
    assert_eq!(topic.forum_id, Some(ForumIdKind::fid("7")));
    assert_eq!(topic.subject.tags, vec!["News"]);
    assert_eq!(topic.subject.content, "Hello & bye");
    assert_eq!(topic.author.id.as_str(), "-5,ctx");
    assert!(!topic.author.id.is_empty());
    assert_eq!(topic.author.name.display(), "Nick");
    assert_eq!(topic.post_date, 1700000000);
    assert_eq!(topic.last_post_date, 1700000100);
    assert_eq!(topic.replies, 12);
    assert_eq!(topic.last_poster, "bob");
    assert!(topic.is_locked);
    assert!(!topic.is_bold);
    assert!(topic.is_topped);
    assert!(topic.is_assembly);
    assert_eq!(topic.topic_type, TopicType::Normal);
    assert!(topic.parent_id.is_none());
    assert_eq!(topic.recommend, 3);

    let quoted = node("item", &[("tid", "100"), ("quote_from", "55"), ("type", "2")], vec![]);
    let topic = parse_topic(&quoted).unwrap().unwrap();
    assert_eq!(topic.id.as_str(), "55");
    assert_eq!(topic.topic_type, TopicType::Debate);
    assert!(!topic.is_locked);
    assert!(topic.forum_id.is_none());
    assert_eq!(topic.author.id.as_str(), "");
    assert!(topic.author.is_anonymous());
    assert_eq!(topic.subject.content, "");

    let bold = node("item", &[("tid", "1"), ("type", "32"), ("fid", "0")], vec![]);
    let topic = parse_topic(&bold).unwrap().unwrap();
    assert!(topic.is_bold && !topic.is_locked && !topic.is_topped && !topic.is_assembly);
    assert!(topic.forum_id.is_none());

    let as_children = node("item", &[], vec![leaf("tid", "9"), leaf("replies", "x")]);
    let topic = parse_topic(&as_children).unwrap().unwrap();
    assert_eq!(topic.id.as_str(), "9");
    assert_eq!(topic.replies, 0);

    assert!(parse_topic(&node("item", &[("subject", "s")], vec![])).unwrap().is_none());
    assert!(parse_topic(&node("item", &[("quote_from", "0")], vec![])).unwrap().is_none());
    assert!(parse_topic(&XmlNode::Text("t".into())).unwrap().is_none());
}

#[test]
fn user_mapping() {
    let full = node(
        "item",
        &[
            ("uid", "42"),
            ("username", "#anon_x"),
            ("avatar", "http://a"),
            ("fame", "-3"),
            ("postnum", "10"),
            ("regdate", "5"),
            ("signature", ""),
            ("admincheck", "1"),
            ("groupid", "6"),
            ("mute", "1"),
            ("honor", "h"),
        ],
        vec![],
    );
    let user = parse_user(&full).unwrap().unwrap();
    assert_eq!(user.id.as_str(), "42");
    assert!(user.is_anonymous());
    assert_eq!(user.avatar_url.as_deref(), Some("http://a"));
    assert_eq!(user.reputation, -3);
    assert_eq!(user.posts, 10);
    assert_eq!(user.reg_date, 5);
    assert_eq!(user.signature.as_deref(), Some(""));
    assert!(user.is_admin);
    assert!(user.is_mod);
    assert!(user.is_muted);
    assert_eq!(user.honor.as_deref(), Some("h"));

    let plain = node("item", &[("uid", "1"), ("admincheck", "0"), ("groupid", "7"), ("mute", "0")], vec![]);
    let user = parse_user(&plain).unwrap().unwrap();
    assert!(!user.is_admin && !user.is_mod && !user.is_muted);
    assert!(user.avatar_url.is_none());
    let past_mute = node("item", &[("uid", "1"), ("mute", "1000"), ("groupid", "5")], vec![]);
    let user = parse_user(&past_mute).unwrap().unwrap();
    assert!(user.is_muted);
    assert!(user.is_mod);
    let odd = node("item", &[("uid", "1"), ("mute", " 5"), ("fame", "1.5")], vec![]);
    let user = parse_user(&odd).unwrap().unwrap();
    assert!(!user.is_muted);
    assert_eq!(user.reputation, 0);
    assert!(parse_user(&node("item", &[("username", "x")], vec![])).unwrap().is_none());
}

#[test]
fn post_mapping() {
    let users = vec![
        User { name: UserName::regular("old"), ..User::anonymous("7") },
        User { name: UserName::regular("alice"), reputation: 9, ..User::anonymous("7") },
        User { name: UserName::regular("bob"), ..User::anonymous("8") },
    ];
    let full = node(
        "item",
        &[
            ("pid", "500"),
            ("tid", "100"),
            ("lou", "3"),
            ("authorid", "7"),
            ("content", "[b]hi[/b]\nthere"),
            ("postdatetimestamp", "1700000000"),
            ("alterinfo", "1700000500"),
            ("score", "-51"),
            ("from_client", "7 iOS"),
            ("comment_count", "2"),
        ],
        vec![node(
            "attachs",
            &[],
            vec![
                node("item", &[("attachurl", "a/b/c.JPG?x=1"), ("size", "10")], vec![]),
                node("item", &[("url", "")], vec![]),
                node("item", &[("name", "v.mp4"), ("url", "u"), ("type", "file:640x480"), ("thumb", "t")], vec![]),
                node("other", &[("url", "skipped")], vec![]),
            ],
        )],
    );
    let post = parse_post(&full, &users).unwrap().unwrap();
    assert_eq!(post.id.as_str(), "500");
    assert_eq!(post.topic_id.as_str(), "100");
    assert_eq!(post.floor, 3);
    assert!(!post.is_main());
    assert_eq!(post.author.name.display(), "alice");
    assert_eq!(post.author.reputation, 9);
    assert_eq!(post.content.to_plain_text(), "hi\nthere");
    assert_eq!(post.content.raw, "[b]hi[/b]<br/>there");
    assert_eq!(post.post_date, 1700000000);
    assert_eq!(post.edit_date, Some(1700000500));
    assert!(post.is_edited);
    assert_eq!(post.score, -51);
    assert_eq!(post.vote.up, -51);
    assert_eq!(post.vote.down, 0);
    assert!(post.vote.user_vote.is_none());
    assert!(post.is_hidden);
    assert_eq!(post.from_device.as_deref(), Some("7 iOS"));
    assert!(post.signature.is_none());
    assert_eq!(post.comment_count, 2);
    assert!(post.hot_replies.is_empty() && post.comments.is_empty());
    assert_eq!(post.attachments.len(), 2);
    assert_eq!(post.attachments[0].url, "a/b/c.JPG?x=1");
    assert_eq!(post.attachments[0].name, "c.JPG?x=1");
    assert_eq!(post.attachments[0].kind, AttachmentKind::Image);
    assert_eq!(post.attachments[0].size, 10);
    assert!(post.attachments[0].thumb_url.is_none());
    assert!(post.attachments[0].dimensions.is_none());
    assert_eq!(post.attachments[1].name, "v.mp4");
    assert_eq!(post.attachments[1].kind, AttachmentKind::Video);
    assert_eq!(post.attachments[1].dimensions, Some((640, 480)));
    assert_eq!(post.attachments[1].thumb_url.as_deref(), Some("t"));

    let unknown = node("item", &[("pid", "1"), ("authorid", "99"), ("alterinfo", "x"), ("score", "-50")], vec![]);
    let post = parse_post(&unknown, &users).unwrap().unwrap();
    assert_eq!(post.author.id.as_str(), "99");
    assert!(post.author.is_anonymous());
    assert!(post.is_edited);
    assert_eq!(post.edit_date, None);
    assert!(!post.is_hidden);
    assert!(post.attachments.is_empty());
    assert!(post.is_main());
    assert!(parse_post(&node("item", &[("tid", "1")], vec![]), &users).unwrap().is_none());
}

#[test]
fn attachment_mapping() {
    let by_type = node("item", &[("url", "x/file.bin"), ("type", "img:10x20"), ("name", "file.bin")], vec![]);
    let a = parse_attachment(&by_type).unwrap();
    assert_eq!(a.kind, AttachmentKind::Image);
    assert_eq!(a.dimensions, Some((10, 20)));
    let by_ext_field = node("item", &[("url", "x"), ("ext", "MP3"), ("name", "a.jpg")], vec![]);
    assert_eq!(parse_attachment(&by_ext_field).unwrap().kind, AttachmentKind::Audio);
    let by_name = node("item", &[("url", "x.mp4"), ("name", "song.flac")], vec![]);
    assert_eq!(parse_attachment(&by_name).unwrap().kind, AttachmentKind::Audio);
    let by_url = node("item", &[("url", "http://h/p/clip.webm?token=1.jpg")], vec![]);
    let a = parse_attachment(&by_url).unwrap();
    assert_eq!(a.kind, AttachmentKind::Video);
    assert_eq!(a.name, "clip.webm?token=1.jpg");
    let by_url = node("item", &[("url", "http://h.x/p/clip?token=1.jpg")], vec![]);
    assert_eq!(parse_attachment(&by_url).unwrap().kind, AttachmentKind::File);
    let by_url = node("item", &[("url", "http://h/p/clip.webm?token=1")], vec![]);
    assert_eq!(parse_attachment(&by_url).unwrap().kind, AttachmentKind::Video);
    let no_dot = node("item", &[("url", "u"), ("name", "README")], vec![]);
    assert_eq!(parse_attachment(&no_dot).unwrap().kind, AttachmentKind::File);
    let dims = |t: &str| parse_attachment(&node("item", &[("url", "u"), ("type", t)], vec![])).unwrap().dimensions;
    assert_eq!(dims("a:1x2:3x4"), Some((1, 2)));
    assert_eq!(dims("a:1x2x3"), None);
    assert_eq!(dims("a:1x"), None);
    assert_eq!(dims("a:-1x2"), None);
    assert_eq!(dims("a:+1x2"), Some((1, 2)));
    assert_eq!(dims("a:4294967296x2"), None);
    assert_eq!(dims("a"), None);
    assert!(parse_attachment(&node("item", &[("name", "n")], vec![])).is_none());
    assert!(parse_attachment(&node("item", &[("attachurl", ""), ("url", "u")], vec![])).is_none());
    let thumbless = node("item", &[("url", "u"), ("thumb", "")], vec![]);
    assert!(parse_attachment(&thumbless).unwrap().thumb_url.is_none());
}

#[test]
fn subforum_and_forum_mapping() {
    let sub = node(
        "item",
        &[],
        vec![
            XmlNode::Text("ignored".into()),
            leaf("a", "12"),
            leaf("b", "Name"),
            leaf("c", "Info"),
            leaf("d", "f12"),
            leaf("e", "558"),
        ],
    );
    let s = parse_subforum(&sub).unwrap();
    assert_eq!(s.forum.id, Some(ForumIdKind::fid("12")));
    assert_eq!(s.forum.name, "Name");
    assert_eq!(s.forum.info, "Info");
    assert_eq!(s.forum.icon_url, "http://img4.ngacn.cc/ngabbs/nga_classic/f/app/12.png");
    assert_eq!(s.filter_id, "f12");
    assert!(s.filterable);
    assert!(s.selected);
    let short = node("other", &[], vec![leaf("a", "3"), leaf("b", "N")]);
    let s = parse_subforum(&short).unwrap();
    assert_eq!(s.forum.id, Some(ForumIdKind::stid("3")));
    assert_eq!(s.filter_id, "");
    assert!(!s.filterable && !s.selected);
    for (bits, filterable, selected) in [("7", false, true), ("40", false, false), ("41", true, false), ("4654", true, true), ("x", false, false)] {
        let n = node("item", &[], vec![leaf("a", "1"), leaf("b", ""), leaf("c", ""), leaf("d", ""), leaf("e", bits)]);
        let s = parse_subforum(&n).unwrap();
        assert_eq!((s.filterable, s.selected), (filterable, selected));
    }
    assert!(parse_subforum(&node("item", &[("id", "1")], vec![])).is_none());

    let f = parse_forum(&node("item", &[("fid", "5"), ("name", "F"), ("info", "I"), ("topped_topic", "9")], vec![])).unwrap().unwrap();
    assert_eq!(f.id, Some(ForumIdKind::fid("5")));
    assert_eq!((f.name.as_str(), f.info.as_str(), f.topped_topic_id.as_str()), ("F", "I", "9"));
    assert_eq!(f.icon_url, "http://img4.ngacn.cc/ngabbs/nga_classic/f/app/5.png");
    let f = parse_forum(&node("item", &[("fid", "5"), ("stid", "6"), ("id", "8"), ("name", "F")], vec![])).unwrap().unwrap();
    assert_eq!(f.id, Some(ForumIdKind::stid("6")));
    assert_eq!(f.icon_url, "http://img4.ngacn.cc/ngabbs/nga_classic/f/app/8.png");
    let f = parse_forum(&node("item", &[("fid", "0"), ("stid", ""), ("name", "F")], vec![])).unwrap().unwrap();
    assert!(f.id.is_none());
    assert_eq!(f.icon_url, "http://img4.ngacn.cc/ngabbs/nga_classic/f/app/0.png");
    assert!(parse_forum(&node("item", &[("fid", "5")], vec![])).unwrap().is_none());

    let cat = node(
        "item",
        &[("_id", "c1"), ("name", "Cat")],
        vec![
            node("groups", &[], vec![
                node("item", &[], vec![
                    node("forums", &[], vec![
                        node("item", &[("fid", "1"), ("name", "one")], vec![]),
                        node("item", &[("fid", "2")], vec![]),
                    ]),
                    node("forums", &[], vec![node("item", &[("fid", "3"), ("name", "three")], vec![])]),
                ]),
                node("skip", &[], vec![node("forums", &[], vec![node("item", &[("name", "no")], vec![])])]),
            ]),
            node("groups", &[], vec![
                node("item", &[], vec![node("forums", &[], vec![node("item", &[("stid", "4"), ("name", "four")], vec![])])]),
            ]),
        ],
    );
    let c = parse_category(&cat).unwrap().unwrap();
    assert_eq!((c.id.as_str(), c.name.as_str()), ("c1", "Cat"));
    let names: Vec<&str> = c.forums.iter().map(|f| f.name.as_str()).collect();
    assert_eq!(names, vec!["one", "three", "four"]);
    assert!(parse_category(&node("item", &[("_id", "c")], vec![])).unwrap().is_none());
    assert!(parse_category(&node("item", &[("name", "c")], vec![])).unwrap().is_none());
}

const LISTING: &str = r#"<root>
  <__T>
    <item><tid>1</tid><subject>[A] one</subject><author>x</author><authorid>3</authorid></item>
    <item><subject>no id</subject></item>
    <item tid="2" subject="two" type="1"/>
  </__T>
  <__ROWS>71</__ROWS>
  <__T__ROWS_PAGE>35</__T__ROWS_PAGE>
  <__F fid="7" name="Forum" info="about">
    <sub_forums>
      <item><a>12</a><b>Sub</b><c>info</c><d>f</d><e>41</e></item>
      <empty/>
      <t><a>13</a></t>
    </sub_forums>
  </__F>
</root>"#;

#[test]
fn topic_list_response() {
    let list = parse_topic_list_response(LISTING).unwrap();
    assert_eq!(list.topics.len(), 2);
    assert_eq!(list.topics[0].id.as_str(), "1");
    assert_eq!(list.topics[0].subject.tags, vec!["A"]);
    assert_eq!(list.topics[0].subject.content, "one");
    assert_eq!(list.topics[1].id.as_str(), "2");
    assert_eq!(list.topics[1].topic_type, TopicType::Poll);
    assert_eq!(list.total_pages, 3);
    assert_eq!(list.page, 1);
    assert!(list.forum.is_none());
    assert!(list.subforums.is_empty());

    let listing = parse_topic_listing(LISTING).unwrap();
    assert_eq!(listing.topics.len(), 2);
    assert_eq!(listing.total_pages, 3);
    let forum = listing.forum.unwrap();
    assert_eq!(forum.id, Some(ForumIdKind::fid("7")));
    assert_eq!(forum.name, "Forum");
    assert_eq!(listing.subforums.len(), 2);
    assert_eq!(listing.subforums[0].forum.id, Some(ForumIdKind::fid("12")));
    assert!(listing.subforums[0].filterable);
    assert_eq!(listing.subforums[1].forum.id, Some(ForumIdKind::stid("13")));

    let empty = parse_topic_list_response("<root/>").unwrap();
    assert!(empty.topics.is_empty());
    assert_eq!(empty.total_pages, 1);
    assert!(parse_topic_listing("<root/>").unwrap().forum.is_none());
    let hinted = parse_topic_list_response("<root><__ROWS>100</__ROWS><__T__ROWS_PAGE>20</__T__ROWS_PAGE></root>").unwrap();
    assert_eq!(hinted.total_pages, 5);
    let unhinted = parse_topic_list_response("<root><__ROWS>100</__ROWS></root>").unwrap();
    assert_eq!(unhinted.total_pages, 3);
    let zero_hint = parse_topic_list_response("<root><__ROWS>100</__ROWS><__T__ROWS_PAGE>0</__T__ROWS_PAGE></root>").unwrap();
    assert_eq!(zero_hint.total_pages, 3);
    assert!(matches!(parse_topic_list_response("<root>"), Err(Error::Xml(_))));
    assert!(matches!(
        parse_topic_list_response(r#"<root><error code="-4" message="blocked"/></root>"#),
        Err(ref e) if e.is_retryable()
    ));
}

const DETAILS: &str = r#"<root>
  <__U>
    <item uid="3" username="alice" groupid="5"/>
    <item username="nobody"/>
    <item uid="4" username="bob(Bobby)"/>
  </__U>
  <__T tid="100" subject="Title" authorid="3" author="alice" replies="2"/>
  <__R>
    <item pid="0" tid="100" lou="0" authorid="3" content="first"/>
    <item tid="100" lou="9"/>
    <item pid="11" tid="100" lou="1" authorid="4" content="second [s:a]"/>
    <item pid="12" tid="100" lou="2" authorid="5" content=""/>
  </__R>
  <__F><name>The Forum</name></__F>
  <__ROWS>41</__ROWS>
  <__R__ROWS_PAGE>20</__R__ROWS_PAGE>
</root>"#;

#[test]
fn topic_details_response() {
    let details = parse_topic_details_response(DETAILS, 4).unwrap();
    assert_eq!(details.topic.id.as_str(), "100");
    assert_eq!(details.topic.subject.content, "Title");
    assert_eq!(details.topic.replies, 2);
    assert_eq!(details.page, 4);
    assert_eq!(details.total_pages, 3);
    assert_eq!(details.forum_name, "The Forum");
    assert_eq!(details.posts.len(), 3);
    assert_eq!(details.posts[0].author.name.display(), "alice");
    assert!(details.posts[0].author.is_mod);
    assert_eq!(details.posts[1].author.name.display(), "Bobby");
    assert_eq!(details.posts[1].content.to_plain_text(), "second ");
    assert_eq!(details.posts[2].author.id.as_str(), "5");
    assert!(details.posts[2].author.is_anonymous());
    assert_eq!(details.posts[2].floor, 2);

    match parse_topic_details_response("<root><__R><item pid='1'/></__R></root>", 1) {
        Err(Error::MissingField(f)) => assert_eq!(f, "topic"),
        other => panic!("expected a missing topic, got {:?}", other.map(|_| ())),
    }
    match parse_topic_details_response("<root><__T subject='x'/></root>", 1) {
        Err(Error::MissingField(f)) => assert_eq!(f, "topic"),
        other => panic!("expected a missing topic, got {:?}", other.map(|_| ())),
    }
    let named = parse_topic_details_response("<root><__T tid='1'/><__F>Plain</__F></root>", 1).unwrap();
    assert_eq!(named.forum_name, "Plain");
    assert_eq!(named.total_pages, 1);
    assert!(named.posts.is_empty());
    let unnamed = parse_topic_details_response("<root><__T tid='1'/></root>", 1).unwrap();
    assert_eq!(unnamed.forum_name, "");
}

#[test]
fn user_responses() {
    let xml = r#"<root><data><item uid="9" username="carol" fame="5"/><item uid="10"/></data></root>"#;
    let user = parse_user_response(xml, &UserId::new("77")).unwrap();
    assert_eq!(user.id.as_str(), "77");
    assert_eq!(user.name.display(), "carol");
    assert_eq!(user.reputation, 5);
    match parse_user_response("<root><data/></root>", &UserId::new("1")) {
        Err(Error::MissingField(f)) => assert_eq!(f, "user data"),
        other => panic!("expected missing user data, got {:?}", other.map(|_| ())),
    }
    let found = parse_user_search(r#"<root><data><item uid="1" username="a" avatar="x"/><item username="skipped"/><item uid="2"/></data></root>"#).unwrap();
    assert_eq!(found.len(), 2);
    assert_eq!((found[0].id.as_str(), found[0].name.as_str(), found[0].avatar_url.as_deref()), ("1", "a", Some("x")));
    assert_eq!((found[1].id.as_str(), found[1].name.as_str(), found[1].avatar_url.as_deref()), ("2", "", None));
}

#[test]
fn post_responses() {
    let xml = r#"<root><data>
        <item pid="1" authorid="3" author="a" content="x" postdate="5" score="2"/>
        <item authorid="4"/>
        <item pid="2"/>
      </data><__ROWS>21</__ROWS></root>"#;
    let replies = parse_hot_replies(xml).unwrap();
    assert_eq!(replies.len(), 2);
    assert_eq!(replies[0].id.as_str(), "1");
    assert_eq!(replies[0].author.id.as_str(), "3");
    assert_eq!(replies[0].author.name.display(), "a");
    assert_eq!(replies[0].content.to_plain_text(), "x");
    assert_eq!((replies[0].post_date, replies[0].score), (5, 2));
    assert!(replies[1].author.is_anonymous());
    let comments = parse_comments(xml).unwrap();
    assert_eq!(comments.comments.len(), 2);
    assert_eq!(comments.total_pages, 2);
    assert_eq!(comments.page, 1);
    assert_eq!(parse_comments("<root/>").unwrap().total_pages, 1);

    let posts = parse_user_posts(r#"<root><__T>
        <item tid="1" pid="2" subject="s" content="c" postdate="3"/>
        <item tid="1"/><item pid="2"/>
      </__T><__ROWS>36</__ROWS></root>"#).unwrap();
    assert_eq!(posts.posts.len(), 1);
    assert_eq!(posts.posts[0].post_id.as_str(), "2");
    assert_eq!(posts.posts[0].topic_id.as_str(), "1");
    assert_eq!(posts.posts[0].topic_subject, "s");
    assert_eq!(posts.posts[0].content_preview, "c");
    assert_eq!(posts.posts[0].post_date, 3);
    assert_eq!(posts.total_pages, 2);

    let vote = parse_vote_response("<root><data><item>12</item><item>3</item><item>1</item></data></root>").unwrap();
    assert_eq!((vote.state.up, vote.state.down, vote.state.user_vote), (12, 3, Some(Vote::Up)));
    let vote = parse_vote_response("<root><data><item>1</item></data></root>").unwrap();
    assert_eq!((vote.state.up, vote.state.down, vote.state.user_vote), (1, 0, Some(Vote::Down)));
    let vote = parse_vote_response("<root><data><item>1</item><item>2</item><item>-1</item></data></root>").unwrap();
    assert_eq!(vote.state.user_vote, None);

    assert_eq!(parse_reply_response("<root><data><item>991</item></data></root>").unwrap().post_id.as_str(), "991");
    for (xml, message) in [
        ("<root><data><__MESSAGE>in data</__MESSAGE></data><__MESSAGE>at root</__MESSAGE></root>", "in data"),
        ("<root><__MESSAGE>at root</__MESSAGE></root>", "at root"),
        ("<root/>", "Unknown error"),
    ] {
        match parse_reply_response(xml) {
            Err(Error::NGAApi { code, message: m }) => {
                assert_eq!(code, "post");
                assert_eq!(m, message);
            }
            other => panic!("expected a refusal, got {:?}", other.map(|_| ())),
        }
    }
    assert!(parse_comment_response("<root><data>ok</data></root>").unwrap().success);
    match parse_comment_response("<root><data/><__MESSAGE>no</__MESSAGE></root>") {
        Err(Error::NGAApi { code, message }) => assert_eq!((code.as_str(), message.as_str()), ("comment", "no")),
        other => panic!("expected a refusal, got {:?}", other.map(|_| ())),
    }
    match parse_comment_response("<root/>") {
        Err(Error::NGAApi { message, .. }) => assert_eq!(message, "Unknown error"),
        other => panic!("expected a refusal, got {:?}", other.map(|_| ())),
    }
    assert_eq!(parse_quote_content("<root><content>[b]x[/b] &amp;lt;</content></root>").unwrap(), "[b]x[/b] <");
    assert_eq!(parse_quote_content("<root/>").unwrap(), "");
}

#[test]
fn message_responses() {
    let xml = r#"<root><data>
        <item mid="1" from_uid="7" to_uid="8" from_username="me" to_username="you" subject="s" time="5" bit="1" count="3"/>
        <item mid="2" from_uid="9" to_uid="7" from_username="them" to_username="me"/>
        <item from_uid="1"/>
      </data><__ROWS>40</__ROWS></root>"#;
    let list = parse_message_list(xml, Some("7")).unwrap();
    assert_eq!(list.conversations.len(), 2);
    let first = &list.conversations[0];
    assert_eq!((first.id.as_str(), first.other_user_id.as_str(), first.other_username.as_str()), ("1", "8", "you"));
    assert_eq!((first.subject.as_str(), first.last_time, first.is_unread, first.message_count), ("s", 5, true, 3));
    let second = &list.conversations[1];
    assert_eq!((second.other_user_id.as_str(), second.other_username.as_str()), ("9", "them"));
    assert_eq!((second.is_unread, second.message_count), (false, 1));
    assert_eq!(list.total_pages, 2);
    let anonymous = parse_message_list(xml, None).unwrap();
    assert_eq!(anonymous.conversations[0].other_user_id.as_str(), "7");

    let xml = r#"<root><data>
        <item id="1" from_uid="7" from_username="me" content="hi[stripbr]there" time="5"/>
        <item id="2" from_uid="9" from_username="them" content="yo"/>
        <item from_uid="9"/>
      </data></root>"#;
    let conv = parse_conversation(xml, Some("7")).unwrap();
    assert_eq!(conv.messages.len(), 2);
    assert!(conv.messages[0].is_mine);
    assert_eq!(conv.messages[0].content.to_plain_text(), "hi\nthere");
    assert_eq!(conv.messages[0].time, 5);
    assert!(!conv.messages[1].is_mine);
    assert_eq!(conv.messages[1].from_user_id.as_str(), "9");
    assert_eq!(conv.other_username, "");
    assert_eq!(conv.other_user_id.as_str(), "0");
    assert_eq!(conv.total_pages, 1);
    assert!(!parse_conversation(xml, None).unwrap().messages[0].is_mine);
}

#[test]
fn notification_responses() {
    let counts = parse_notification_counts("<root><data><item><reply>5</reply><at> 2 </at><pm>x</pm><system>1e1</system></item></data></root>").unwrap();
    assert_eq!((counts.replies, counts.quotes, counts.mentions), (5, 0, 2));
    assert_eq!((counts.comments, counts.system, counts.messages), (0, 10, 0));
    assert_eq!(counts.checked_total(), Some(17));
    let xml = r#"<root><data>
        <item id="1" content="a &amp;amp; b" url="/read.php?tid=12&amp;pid=34" from_uid="7" from_username="u" time="9"/>
        <item id="2" time="x"/>
        <item content="no id"/>
      </data><__ROWS>20</__ROWS></root>"#;
    let list = parse_notification_list(xml, NotificationType::Quote).unwrap();
    assert_eq!(list.notifications.len(), 2);
    let n = &list.notifications[0];
    assert_eq!((n.id.as_str(), n.kind, n.content.as_str(), n.time, n.is_read), ("1", NotificationType::Quote, "a & b", 9, false));
    assert_eq!(n.topic_id.as_ref().map(|t| t.as_str()), Some("12"));
    assert_eq!(n.post_id.as_ref().map(|t| t.as_str()), Some("34"));
    assert_eq!(n.from_user_id.as_ref().map(|t| t.as_str()), Some("7"));
    assert_eq!(n.from_username.as_deref(), Some("u"));
    let n = &list.notifications[1];
    assert_eq!((n.content.as_str(), n.time), ("", 0));
    assert!(n.topic_id.is_none() && n.post_id.is_none() && n.from_user_id.is_none() && n.from_username.is_none());
    assert_eq!(list.total_pages, 1);
}

#[test]
fn forum_responses() {
    let cats = parse_category_list(r#"<root><data>
        <item _id="a" name="A"><groups><item><forums><item fid="1" name="f"/></forums></item></groups></item>
        <item name="skipped"/>
        <item _id="b" name="B"/>
      </data></root>"#).unwrap();
    assert_eq!(cats.len(), 2);
    assert_eq!(cats[0].forums.len(), 1);
    assert_eq!(cats[1].forums.len(), 0);
    let forums = parse_forum_list(r#"<root><item fid="1" name="a"/><item fid="2"/><item stid="3" name="c"/></root>"#, "/root/item").unwrap();
    assert_eq!(forums.len(), 2);
    assert_eq!(forums[1].id, Some(ForumIdKind::stid("3")));
    let folders = parse_favorite_folders(r#"<root><data><item><item id="1" name="n" length="4"/><item name="x"/><item id="2" length="?"/></item></data></root>"#).unwrap();
    assert_eq!(folders.len(), 2);
    assert_eq!((folders[0].id.as_str(), folders[0].name.as_str(), folders[0].count), ("1", "n", 4));
    assert_eq!((folders[1].id.as_str(), folders[1].name.as_str(), folders[1].count), ("2", "", 0));
}

fn client() -> NGAClient {
    NGAClient::builder().build().unwrap()
}

fn check(req: &ApiRequest, api: &str, query: &[(&str, &str)], form: &[(&str, &str)], needs_auth: bool) {
    assert_eq!(req.api, api);
    assert_eq!(pairs(&req.query), query);
    assert_eq!(pairs(&req.form), form);
    assert_eq!(req.needs_auth, needs_auth);
}

#[test]
fn the_client_hands_out_the_apis() {
    let client = NGAClient::builder().build().unwrap();
    check(&client.forums().search("k"), "forum.php", &[("key", "k")], &[], false);
    check(&client.topics().by_user("5", 1), "thread.php", &[("authorid", "5"), ("page", "1")], &[], false);
    check(&client.users().get("7"), "nuke.php", &[("__lib", "ucp"), ("__act", "get"), ("uid", "7")], &[], false);
    assert_eq!(client.posts().reply("1").topic_id.as_str(), "1");
    assert_eq!(client.notifications().list(NotificationType::Reply).page, 1);
    assert_eq!(client.messages().conversation("m").mid, "m");
}

#[test]
fn forum_and_user_requests() {
    check(&client().forums().list(), "app_api.php", &[("__lib", "home"), ("__act", "category")], &[], false);
    check(&client().forums().search("k w"), "forum.php", &[("key", "k w")], &[], false);
    check(&client().forums().favorites(), "nuke.php", &[("__lib", "forum_favor2"), ("__act", "forum_favor")], &[("action", "get")], true);
    check(
        &client().forums().modify_favorite(&ForumIdKind::stid("5"), FavoriteForumOp::Remove),
        "nuke.php",
        &[("__lib", "forum_favor2"), ("__act", "forum_favor")],
        &[("action", "del"), ("fid", "5")],
        true,
    );
    check(
        &client().forums().set_subforum_filter("1", "2", SubforumFilterOp::Block),
        "nuke.php",
        &[("__lib", "user_option"), ("__act", "set"), ("add", "2")],
        &[("fid", "1"), ("type", "1"), ("info", "add_to_block_tids")],
        true,
    );
    check(&client().users().get("7"), "nuke.php", &[("__lib", "ucp"), ("__act", "get"), ("uid", "7")], &[], false);
    check(&client().users().get_by_name("n"), "nuke.php", &[("__lib", "ucp"), ("__act", "get"), ("username", "n")], &[], false);
    check(&client().users().search("k"), "nuke.php", &[("__lib", "ucp"), ("__act", "search"), ("key", "k")], &[], false);
}

#[test]
fn topic_requests() {
    let list = client().topics().list(ForumIdKind::fid("7"));
    assert_eq!((list.page, list.order, list.recommended_only), (1, TopicOrder::LastPost, false));
    check(
        &list.request(),
        "thread.php",
        &[("fid", "7"), ("page", "1"), ("order_by", ""), ("recommend", "")],
        &[],
        false,
    );
    check(
        &client().topics().list(ForumIdKind::stid("8")).page(12).order(TopicOrder::PostDate).recommended_only(true).request(),
        "thread.php",
        &[("stid", "8"), ("page", "12"), ("order_by", "postdate"), ("recommend", "1")],
        &[],
        false,
    );
    check(
        &client().topics().details("100").request(),
        "read.php",
        &[("tid", "100"), ("page", "1"), ("fav", ""), ("pid", ""), ("authorid", ""), ("opt", "")],
        &[],
        false,
    );
    check(
        &client().topics().details("100").page(3).fav("f").post("p").author("a").anonymous_only(true).request(),
        "read.php",
        &[("tid", "100"), ("page", "3"), ("fav", "f"), ("pid", "p"), ("authorid", "a"), ("opt", "512")],
        &[],
        false,
    );
    check(
        &client().topics().search(ForumIdKind::fid("7"), "word").page(2).search_content(true).request(),
        "thread.php",
        &[("fid", "7"), ("key", "word"), ("page", "2"), ("content", "1"), ("recommend", "")],
        &[],
        false,
    );
    check(&client().topics().favorites().request(), "thread.php", &[("favor", ""), ("page", "1")], &[], true);
    check(&client().topics().favorites().folder("9").page(4).request(), "thread.php", &[("favor", "9"), ("page", "4")], &[], true);
    check(
        &client().topics().favorite_folders(),
        "nuke.php",
        &[("__lib", "topic_favor_v2"), ("__act", "list_folder"), ("page", "1")],
        &[],
        true,
    );
    check(
        &client().topics().modify_favorite("1", "2", FavoriteTopicOp::Add),
        "nuke.php",
        &[("__lib", "topic_favor_v2"), ("__act", "add")],
        &[("tid", "1"), ("folder", "2")],
        true,
    );
    check(
        &client().topics().modify_favorite("1", "2", FavoriteTopicOp::Remove),
        "nuke.php",
        &[("__lib", "topic_favor_v2"), ("__act", "del")],
        &[("tidarray", "1"), ("folder", "2")],
        true,
    );
    check(&client().topics().by_user("5", 4294967295), "thread.php", &[("authorid", "5"), ("page", "4294967295")], &[], false);
}

#[test]
fn post_requests() {
    check(
        &client().posts().vote("1", "2", Vote::Up),
        "nuke.php",
        &[("__lib", "topic_recommend"), ("__act", "add"), ("raw", "3")],
        &[("tid", "1"), ("pid", "2"), ("value", "1")],
        true,
    );
    check(
        &client().posts().hot_replies("1", "2"),
        "nuke.php",
        &[("__lib", "post_recommend"), ("__act", "get"), ("pid", "2"), ("tid", "1")],
        &[],
        false,
    );
    check(
        &client().posts().comments("1", "2", 3),
        "nuke.php",
        &[("__lib", "post_comment"), ("__act", "get"), ("pid", "2"), ("tid", "1"), ("page", "3")],
        &[],
        false,
    );
    check(&client().posts().fetch_quote_content("1", "2"), "post.php", &[("action", "quote"), ("tid", "1"), ("pid", "2")], &[], true);
    check(&client().posts().by_user("5", 2), "thread.php", &[("searchpost", "1"), ("authorid", "5"), ("page", "2")], &[], false);
    check(
        &client().posts().reply("100").content("text").request().unwrap(),
        "post.php",
        &[("action", "reply")],
        &[("tid", "100"), ("pid", ""), ("post_content", "text"), ("attachs", ""), ("anony", "")],
        true,
    );
    check(
        &client().posts().reply("100").content(" t ").quote("5").attachment("a").attachment("b").anonymous(true).request().unwrap(),
        "post.php",
        &[("action", "quote")],
        &[("tid", "100"), ("pid", "5"), ("post_content", " t "), ("attachs", "a,b"), ("anony", "1")],
        true,
    );
    for blank in ["", "   ", "\n\t"] {
        match client().posts().reply("100").content(blank).request() {
            Err(Error::InvalidArgument(m)) => assert_eq!(m, "Reply content cannot be empty"),
            other => panic!("expected a refusal, got {:?}", other),
        }
        match client().posts().comment("1", "2").content(blank).request() {
            Err(Error::InvalidArgument(m)) => assert_eq!(m, "Comment content cannot be empty"),
            other => panic!("expected a refusal, got {:?}", other),
        }
    }
    check(
        &client().posts().comment("1", "2").content("c").request().unwrap(),
        "nuke.php",
        &[("__lib", "post_comment"), ("__act", "add")],
        &[("tid", "1"), ("pid", "2"), ("content", "c")],
        true,
    );
}

#[test]
fn notification_and_message_requests() {
    check(&client().notifications().counts(), "nuke.php", &[("__lib", "noti"), ("__act", "get_all_unread")], &[], true);
    check(
        &client().notifications().list(NotificationType::Mention).page(2).request(),
        "nuke.php",
        &[("__lib", "noti"), ("__act", "get_list"), ("type", "at"), ("page", "2")],
        &[],
        true,
    );
    check(&client().notifications().mark_read("9"), "nuke.php", &[("__lib", "noti"), ("__act", "read"), ("id", "9")], &[], true);
    check(
        &client().notifications().mark_all_read(NotificationType::System),
        "nuke.php",
        &[("__lib", "noti"), ("__act", "read_all"), ("type", "system")],
        &[],
        true,
    );
    check(&client().messages().list(3), "nuke.php", &[("__lib", "pm"), ("__act", "list"), ("page", "3")], &[], true);
    check(
        &client().messages().conversation("m").page(2).request(),
        "nuke.php",
        &[("__lib", "pm"), ("__act", "read"), ("mid", "m"), ("page", "2")],
        &[],
        true,
    );
    check(
        &client().messages().send_new().to("u").subject("s").content("c").request().unwrap(),
        "nuke.php",
        &[("__lib", "pm"), ("__act", "send")],
        &[("to", "u"), ("subject", "s"), ("content", "c")],
        true,
    );
    check(
        &client().messages().reply("77").content("c").request().unwrap(),
        "nuke.php",
        &[("__lib", "pm"), ("__act", "reply")],
        &[("to", ""), ("subject", ""), ("content", "c"), ("mid", "77")],
        true,
    );
    match client().messages().send_new().to("u").content("  ").request() {
        Err(Error::InvalidArgument(m)) => assert_eq!(m, "Message content cannot be empty"),
        other => panic!("expected a refusal, got {:?}", other),
    }
    match client().messages().send_new().content("c").request() {
        Err(Error::InvalidArgument(m)) => assert_eq!(m, "Recipient username is required"),
        other => panic!("expected a refusal, got {:?}", other),
    }
    match client().messages().send_new().request() {
        Err(Error::InvalidArgument(m)) => assert_eq!(m, "Message content cannot be empty"),
        other => panic!("expected a refusal, got {:?}", other),
    }
}
