use rnga::client::AuthInfo;
use rnga::models::{
    parse_anon_id, parse_notification_type, AttachmentKind, Forum, ForumId, ForumIdKind, NotificationCounts,
    NotificationType, Post, PostContent, PostId, SearchTimeRange, ShortMessagePost, Span,
    SpanKind, Subject, Topic, TopicId, TopicOrder, TopicSnapshot, TopicType, User, UserId,
    UserName, Vote, VoteState,
};
use rnga::models::{FavoriteForumOp, FavoriteTopicOp, SubforumFilterOp};

#[test]
fn test_forum_id_kind_param() {
    let fid = ForumIdKind::fid("123");
    assert_eq!(fid.param_name(), "fid");

    let stid = ForumIdKind::stid("456");
    assert_eq!(stid.param_name(), "stid");
}

#[test]
fn test_notification_type_param() {
    assert_eq!(NotificationType::Reply.param(), "reply");
    assert_eq!(NotificationType::Mention.param(), "at");
}

#[test]
fn test_vote_param() {
    assert_eq!(Vote::Up.param(), "1");
    assert_eq!(Vote::Down.param(), "0");
}

#[test]
fn topic_test_topic_order_param() {
    assert_eq!(TopicOrder::LastPost.param(), "");
    assert_eq!(TopicOrder::PostDate.param(), "postdate");
    assert_eq!(TopicOrder::Recommend.param(), "recommend");
}

#[test]
fn test_topic_order_param() {
    assert_eq!(TopicOrder::LastPost.param(), "");
    assert_eq!(TopicOrder::PostDate.param(), "postdate");
}

#[test]
fn test_user_id_creation() {
    let id = UserId::new("12345");
    assert_eq!(id.as_str(), "12345");
}

#[test]
fn test_auth_info_validity() {
    let valid = AuthInfo::new("token123", "12345");
    assert!(valid.is_valid());

    let empty_token = AuthInfo::new("", "12345");
    assert!(!empty_token.is_valid());

    let empty_uid = AuthInfo::new("token123", "");
    assert!(!empty_uid.is_valid());

    let zero_uid = AuthInfo::new("token123", "0");
    assert!(!zero_uid.is_valid());
}

#[test]
fn test_post_content_plain_text() {
    let content = PostContent::plain("Hello world");
    assert_eq!(content.to_plain_text(), "Hello world");
}

#[test]
fn test_span_tagged() {
    let span = Span::tagged("b", vec![], vec![], vec![Span::plain("bold")]);
    assert!(span.is_tag("b"));
    assert_eq!(span.to_plain_text(), "bold");
}

#[test]
fn test_subject() {
    let subject = Subject::new(vec!["News".into()], "Hello".into());
    assert_eq!(subject.full_text(), "[News] Hello");
}

#[test]
fn test_forum_id_kind() {
    let fid = ForumIdKind::fid("123");
    assert!(fid.is_fid());
    assert_eq!(fid.id(), "123");
    assert_eq!(fid.param_name(), "fid");

    let stid = ForumIdKind::stid("456");
    assert!(stid.is_stid());
    assert_eq!(stid.id(), "456");
    assert_eq!(stid.param_name(), "stid");
}

#[test]
fn test_forum_minimal() {
    let forum = Forum::minimal(ForumIdKind::fid("123"), "Test Forum");
    assert_eq!(forum.name, "Test Forum");
    assert!(forum.icon_url.contains("123.png"));
}

#[test]
fn test_id_creation() {
    let id = TopicId::new("12345");
    assert_eq!(id.as_str(), "12345");
    assert_eq!(format!("{}", id.to_string()), "12345");
}

#[test]
fn test_id_from_int() {
    let id = TopicId::from(12345i64);
    assert_eq!(id.as_str(), "12345");
}

#[test]
fn test_id_is_empty() {
    assert!(TopicId::new("").is_empty());
    assert!(TopicId::new("0").is_empty());
    assert!(!TopicId::new("123").is_empty());
}

#[test]
fn test_anonymous_user_id() {
    let user_id = UserId::from("-12345,context");
    assert_eq!(user_id.as_str(), "-12345,context");
    assert!(!user_id.is_empty());
}

#[test]
fn test_short_message_post() {
    let msg = ShortMessagePost {
        id: "123".into(),
        from_user_id: "456".into(),
        is_mine: false,
        ..Default::default()
    };

    let mine = msg.clone().mark_as_mine();
    assert!(mine.is_mine);
    assert!(!msg.is_mine);
}

#[test]
fn test_notification_type_from_id() {
    assert_eq!(NotificationType::from_type_id(1), NotificationType::Reply);
    assert_eq!(NotificationType::from_type_id(3), NotificationType::Mention);
    assert_eq!(NotificationType::from_type_id(99), NotificationType::Other);
}

#[test]
fn test_notification_counts() {
    let counts = NotificationCounts {
        replies: 5,
        quotes: 2,
        mentions: 1,
        ..Default::default()
    };
    assert_eq!(counts.total(), 8);
    assert!(counts.has_unread());
}

#[test]
fn test_attachment_kind() {
    assert_eq!(AttachmentKind::from_ext("jpg"), AttachmentKind::Image);
    assert_eq!(AttachmentKind::from_ext("MP4"), AttachmentKind::Video);
    assert_eq!(AttachmentKind::from_ext("mp3"), AttachmentKind::Audio);
    assert_eq!(AttachmentKind::from_ext("zip"), AttachmentKind::File);
}

#[test]
fn test_vote_state_net() {
    let state = VoteState {
        up: 10,
        down: 3,
        user_vote: None,
    };
    assert_eq!(state.net(), 7);
}

#[test]
fn test_post_is_main() {
    let main = Post {
        floor: 0,
        ..Default::default()
    };
    assert!(main.is_main());

    let reply = Post {
        floor: 1,
        ..Default::default()
    };
    assert!(!reply.is_main());
}

#[test]
fn test_topic_type_from_i32() {
    assert_eq!(TopicType::from(0), TopicType::Normal);
    assert_eq!(TopicType::from(1), TopicType::Poll);
    assert_eq!(TopicType::from(2), TopicType::Debate);
    assert_eq!(TopicType::from(4), TopicType::Assembly);
}

#[test]
fn test_username_parse() {
    let regular = UserName::parse("TestUser");
    assert!(matches!(regular, UserName::Regular(ref n) if n == "TestUser"));

    let anon = UserName::parse("#anon_abc123");
    assert!(matches!(anon, UserName::Anonymous));

    let nickname = UserName::parse("RealName(DisplayName)");
    match nickname {
        UserName::WithNickname { name, nickname } => {
            assert_eq!(name, "RealName");
            assert_eq!(nickname, "DisplayName");
        }
        _ => panic!("Expected WithNickname"),
    }
}

#[test]
fn test_anon_id_parse() {
    let result = parse_anon_id("-12345,abc123");
    assert_eq!(result, Some((-12345, "abc123")));

    assert!(parse_anon_id("12345,abc").is_none());
    assert!(parse_anon_id("-12345").is_none());
}

#[test]
fn test_user_is_anonymous() {
    let anon = User::anonymous("-12345");
    assert!(anon.is_anonymous());
    assert!(anon.is_negative_id());
}

#[test]
fn id_defaults_to_zero_and_converts() {
    assert_eq!(PostId::default().as_str(), "0");
    assert!(ForumId::default().is_empty());
    assert_eq!(TopicId::from(-7i32).as_str(), "-7");
    assert_eq!(TopicId::from(0i64).as_str(), "0");
    assert_eq!(TopicId::from(i64::MIN).as_str(), "-9223372036854775808");
    assert_eq!(TopicId::from(i64::MAX).as_str(), "9223372036854775807");
    assert_eq!(UserId::from(String::from("42")).as_str(), "42");
    assert_eq!(UserId::from(&String::from("43")).as_str(), "43");
    assert_eq!(UserId::new("5"), UserId::new("5"));
    assert_ne!(UserId::new("5"), UserId::new("6"));
    let kind: ForumIdKind = ForumId::new("9").into();
    assert_eq!(kind, ForumIdKind::fid("9"));
}

#[test]
fn username_edge_cases() {
    assert!(matches!(UserName::parse("   "), UserName::Anonymous));
    assert!(matches!(UserName::parse(""), UserName::Anonymous));
    assert!(matches!(UserName::parse("  Bob  "), UserName::Regular(ref n) if n == "Bob"));
    assert!(matches!(UserName::parse("a(b"), UserName::Regular(ref n) if n == "a(b"));
    match UserName::parse(" Real ( Nick ) ") {
        UserName::WithNickname { name, nickname } => {
            assert_eq!(name, "Real");
            assert_eq!(nickname, "Nick");
        }
        _ => panic!("expected a nickname"),
    }
    match UserName::parse("()") {
        UserName::WithNickname { name, nickname } => {
            assert_eq!(name, "");
            assert_eq!(nickname, "");
        }
        _ => panic!("expected a nickname"),
    }
    assert_eq!(UserName::parse("A(B)").display(), "B");
    assert_eq!(UserName::parse("A(B)").primary(), Some("A"));
    assert_eq!(UserName::Anonymous.display(), "Anonymous");
    assert_eq!(UserName::Anonymous.primary(), None);
    assert_eq!(UserName::regular("x").display(), "x");
    assert_eq!(UserName::with_nickname("a", "b").primary(), Some("a"));
}

#[test]
fn anon_id_edge_cases() {
    assert_eq!(parse_anon_id("-1,a,b"), Some((-1, "a,b")));
    assert_eq!(parse_anon_id("-1,"), Some((-1, "")));
    assert_eq!(parse_anon_id("-x,abc"), None);
    assert_eq!(parse_anon_id(""), None);
    assert_eq!(parse_anon_id("-99999999999999999999,abc"), None);
    assert_eq!(parse_anon_id("-9223372036854775808,z"), Some((i64::MIN, "z")));
    let user = User::anonymous("-5,ctx");
    assert_eq!(user.anon_id(), Some("-5,ctx"));
    assert_eq!(User::anonymous("5").anon_id(), None);
    assert!(!User::default().is_negative_id());
}

#[test]
fn params_of_operations() {
    assert_eq!(SubforumFilterOp::Show.param(), "del");
    assert_eq!(SubforumFilterOp::Block.param(), "add");
    assert_eq!(FavoriteForumOp::Add.param(), "add");
    assert_eq!(FavoriteForumOp::Remove.param(), "del");
    assert_eq!(FavoriteTopicOp::Add.param(), "add");
    assert_eq!(FavoriteTopicOp::Remove.param(), "del");
    assert_eq!(SearchTimeRange::All.param(), "");
    assert_eq!(SearchTimeRange::Day.param(), "86400");
    assert_eq!(SearchTimeRange::Week.param(), "604800");
    assert_eq!(SearchTimeRange::Month.param(), "2592000");
    assert_eq!(SearchTimeRange::Year.param(), "31536000");
    assert_eq!(NotificationType::Other.param(), "");
    assert_eq!(NotificationType::Punishment.param(), "punishment");
    assert_eq!(NotificationType::from_type_id(7), NotificationType::Comment);
    assert_eq!(NotificationType::from_type_id(0), NotificationType::Other);
    assert_eq!(TopicType::from(8), TopicType::Assembly);
    assert_eq!(TopicType::from(16), TopicType::Assembly);
    assert_eq!(TopicType::from(3), TopicType::Normal);
}

#[test]
fn forum_and_topic_builders() {
    let forum = Forum::minimal(ForumIdKind::stid("77"), "Name");
    assert_eq!(forum.icon_url, "http://img4.ngacn.cc/ngabbs/nga_classic/f/app/77.png");
    assert_eq!(forum.id_str(), Some("77"));
    assert_eq!(forum.info, "");
    assert_eq!(Forum::default().id_str(), None);
    let topic = Topic::with_id("55");
    assert_eq!(topic.id.as_str(), "55");
    assert_eq!(topic.replies, 0);
    assert!(topic.author.is_anonymous());
    assert_eq!(topic.author.id.as_str(), "0");
    let snap = TopicSnapshot::at(&topic, "Forum", 1234);
    assert_eq!(snap.id.as_str(), "55");
    assert_eq!(snap.forum_name, "Forum");
    assert_eq!(snap.timestamp, 1234);
    let now = TopicSnapshot::from_topic(&topic, "F");
    assert_eq!(now.forum_name, "F");
    assert!(now.timestamp > 1_600_000_000);
}

#[test]
fn counts_and_votes_at_the_limits() {
    let counts = NotificationCounts { replies: i32::MAX, quotes: 1, ..Default::default() };
    assert_eq!(counts.checked_total(), None);
    assert!(counts.has_unread());
    let none = NotificationCounts::default();
    assert_eq!(none.checked_total(), Some(0));
    assert!(!none.has_unread());
    let negative = NotificationCounts { replies: -3, quotes: 2, ..Default::default() };
    assert!(!negative.has_unread());
    let state = VoteState { up: i32::MIN, down: 1, user_vote: Some(Vote::Up) };
    assert_eq!(state.checked_net(), None);
    assert_eq!(VoteState { up: 3, down: 10, user_vote: None }.checked_net(), Some(-7));
}

#[test]
fn span_accessors() {
    let span = Span::tagged(
        "url",
        vec!["http://x".to_string(), "y".to_string()],
        vec![],
        vec![Span::plain("a"), Span::line_break(), Span::sticker("s"), Span::plain("b")],
    );
    assert_eq!(span.tag_name(), Some("url"));
    assert_eq!(span.first_attr(), Some("http://x"));
    assert!(!span.is_tag("b"));
    assert!(!span.is_plain());
    assert_eq!(span.to_plain_text(), "a\nb");
    assert!(Span::plain("x").is_plain());
    assert_eq!(Span::plain("x").tag_name(), None);
    assert_eq!(Span::plain("x").first_attr(), None);
    assert_eq!(Span::tagged("b", vec![], vec![], vec![]).first_attr(), None);
    assert_eq!(Span::divider(vec![Span::plain("in")]).to_plain_text(), "in");
    assert_eq!(Span::line_break().to_plain_text(), "\n");
    assert_eq!(Span::sticker("a").to_plain_text(), "");
    let copy = span.clone();
    assert!(matches!(copy.kind, SpanKind::Tagged { ref tag, ref spans, .. } if tag == "url" && spans.len() == 4));
    assert!(PostContent::empty().is_empty());
    assert!(!PostContent::plain("x").is_empty());
    assert_eq!(PostContent::empty().to_plain_text(), "");
    assert_eq!(Subject::plain("t").full_text(), "t");
    assert_eq!(
        Subject::new(vec!["a".into(), "b".into()], "c".into()).full_text(),
        "[a][b] c"
    );
    assert_eq!(Subject::default().full_text(), "");
}

#[test]
fn notification_types_by_name() {
    for (name, kind) in [
        ("reply", NotificationType::Reply),
        ("replies", NotificationType::Reply),
        ("Quote", NotificationType::Quote),
        ("quotes", NotificationType::Quote),
        ("mention", NotificationType::Mention),
        ("MENTIONS", NotificationType::Mention),
        ("at", NotificationType::Mention),
        ("comment", NotificationType::Comment),
        ("comments", NotificationType::Comment),
        ("system", NotificationType::System),
        ("message", NotificationType::Message),
        ("messages", NotificationType::Message),
        ("pm", NotificationType::Message),
        ("punishment", NotificationType::Reply),
        ("", NotificationType::Reply),
        ("systems", NotificationType::Reply),
    ] {
        assert_eq!(parse_notification_type(name), kind, "{:?}", name);
    }
}
