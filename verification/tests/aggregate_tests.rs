use rnga::aggregate::{
    checked_times, cutoff_time, effective_concurrency, entry_of_comment, entry_of_post,
    has_comments, keep_recent, merge_later, merge_pages, pages_to_fetch, parse_order,
    parse_time_range, plan_pages, range_or_hour, read_mode, scan_back, scan_back_over,
    scan_forward, scans_posts, sort_by_floor, sort_by_key, sort_newest_first, PagePlan,
    PageResult, RangeUnit, ReadMode, RecentPost, TimeRange,
};
use rnga::models::{LightPost, Post, PostContent, Topic, TopicOrder, User, UserName};

fn page(page: u32, items: Option<Vec<&'static str>>) -> PageResult<&'static str> {
    PageResult { page, items }
}

#[test]
fn a_failed_page_is_left_out() {
    let plan = plan_pages(1, 4, 10);
    assert_eq!(pages_to_fetch(plan), vec![2, 3, 4]);
    let full = vec![page(3, Some(vec!["3a", "3b"])), page(4, Some(vec!["4a"])), page(2, Some(vec!["2a", "2b"]))];
    let failed = vec![page(3, None), page(4, Some(vec!["4a"])), page(2, Some(vec!["2a", "2b"]))];
    assert_eq!(merge_pages(vec!["1a"], full, plan), vec!["1a", "2a", "2b", "3a", "3b", "4a"]);
    assert_eq!(merge_pages(vec!["1a"], failed, plan), vec!["1a", "2a", "2b", "4a"]);
}

#[test]
fn concurrency_is_clamped() {
    assert_eq!(effective_concurrency(4, 8), 4);
    assert_eq!(effective_concurrency(16, 8), 8);
    assert_eq!(effective_concurrency(0, 8), 1);
    assert_eq!(effective_concurrency(8, 8), 8);
    assert_eq!(effective_concurrency(1, 1), 1);
    assert_eq!(effective_concurrency(5, 0), 1);
    assert_eq!(effective_concurrency(usize::MAX, usize::MAX), usize::MAX);
}

#[test]
fn page_plans() {
    assert_eq!(plan_pages(1, 1, 10), PagePlan { start_page: 1, end_page: 1 });
    assert_eq!(plan_pages(0, 3, 10), PagePlan { start_page: 1, end_page: 3 });
    assert_eq!(plan_pages(9, 5, 10), PagePlan { start_page: 9, end_page: 10 });
    assert_eq!(plan_pages(10, 5, 10), PagePlan { start_page: 10, end_page: 10 });
    assert_eq!(plan_pages(11, 5, 10), PagePlan { start_page: 11, end_page: 11 });
    assert_eq!(plan_pages(12, 5, 10), PagePlan { start_page: 12, end_page: 12 });
    assert_eq!(plan_pages(3, 0, 10), PagePlan { start_page: 3, end_page: 3 });
    assert_eq!(plan_pages(1, u32::MAX, u32::MAX), PagePlan { start_page: 1, end_page: u32::MAX });
    assert_eq!(plan_pages(u32::MAX, 2, u32::MAX), PagePlan { start_page: u32::MAX, end_page: u32::MAX });
    assert_eq!(pages_to_fetch(plan_pages(5, 3, 10)), vec![6, 7]);
    assert!(pages_to_fetch(plan_pages(5, 1, 10)).is_empty());
}

#[test]
fn merging_goes_by_page_and_not_by_arrival() {
    let plan = PagePlan { start_page: 2, end_page: 5 };
    let results = vec![
        page(5, Some(vec!["5"])),
        page(9, Some(vec!["outside the plan"])),
        page(3, Some(vec![])),
        page(4, Some(vec!["4"])),
        page(4, Some(vec!["a second answer"])),
        page(2, Some(vec!["the first page is not fetched again"])),
    ];
    assert_eq!(merge_pages(vec!["2"], results, plan), vec!["2", "4", "5"]);
    let nothing: Vec<PageResult<&str>> = Vec::new();
    assert_eq!(merge_pages(vec!["2"], nothing, plan), vec!["2"]);
    let all_failed = vec![page(3, None), page(4, None), page(5, None)];
    assert_eq!(merge_pages(Vec::<&str>::new(), all_failed, plan), Vec::<&str>::new());
}

fn post(id: &str, floor: i32, date: i64) -> Post {
    Post { id: id.into(), floor, post_date: date, ..Default::default() }
}

fn ids(posts: &[Post]) -> Vec<&str> {
    posts.iter().map(|p| p.id.as_str()).collect()
}

#[test]
fn scans_stop_at_the_cutoff() {
    let (kept, next) = scan_back(vec![post("a", 1, 5), post("b", 2, 10), post("c", 3, 11)], 10, 7);
    assert_eq!(ids(&kept), vec!["b", "c"]);
    assert_eq!(next, Some(6));
    let (kept, next) = scan_back(vec![post("a", 1, 5)], 10, 7);
    assert!(kept.is_empty());
    assert_eq!(next, None);
    let (kept, next) = scan_back(vec![post("a", 1, 50)], 10, 1);
    assert_eq!(ids(&kept), vec!["a"]);
    assert_eq!(next, None);
    assert_eq!(scan_back(vec![post("a", 1, 50)], 10, 0).1, None);
    assert_eq!(scan_back(vec![post("a", 1, 50)], 10, 2).1, Some(1));
    assert_eq!(scan_back(Vec::<LightPost>::new(), 10, 5).1, None);
    let comment = LightPost { post_date: 10, ..Default::default() };
    assert_eq!(scan_back(vec![comment], 10, 5).1, Some(4));

    let topic = |id: &str, created: i64, last: i64| Topic { post_date: created, last_post_date: last, ..Topic::with_id(id) };
    let topics = vec![topic("old", 1, 2), topic("revived", 1, 100), topic("new", 100, 100)];
    let (kept, next) = scan_forward(topics.clone(), 50, TopicOrder::LastPost, 1, 3);
    assert_eq!(kept.iter().map(|t| t.id.as_str()).collect::<Vec<_>>(), vec!["revived", "new"]);
    assert_eq!(next, Some(2));
    let (kept, next) = scan_forward(topics.clone(), 50, TopicOrder::PostDate, 1, 3);
    assert_eq!(kept.iter().map(|t| t.id.as_str()).collect::<Vec<_>>(), vec!["new"]);
    assert_eq!(next, Some(2));
    assert_eq!(scan_forward(topics.clone(), 50, TopicOrder::Recommend, 3, 3).1, None);
    assert_eq!(scan_forward(topics.clone(), 500, TopicOrder::LastPost, 1, 3).1, None);
    assert_eq!(scan_forward(topics, 50, TopicOrder::LastPost, u32::MAX, u32::MAX).1, None);
    assert_eq!(ids(&keep_recent(vec![post("a", 0, i64::MIN)], i64::MIN, TopicOrder::LastPost)), vec!["a"]);
    assert_eq!(cutoff_time(1000, 100), 900);
    assert_eq!(cutoff_time(i64::MIN, 1), i64::MIN);
    assert_eq!(cutoff_time(i64::MAX, -1), i64::MAX);
    assert_eq!(cutoff_time(0, i64::MIN), i64::MAX);
}

#[test]
fn sorting_is_stable() {
    let sorted = sort_by_floor(vec![post("c", 2, 0), post("a", 0, 0), post("d", 2, 0), post("b", 1, 0), post("e", 0, 0)]);
    assert_eq!(ids(&sorted), vec!["a", "e", "b", "c", "d"]);
    assert!(sort_by_floor(Vec::new()).is_empty());
    let keyed = sort_by_key(vec![(3i128, 'a'), (-1, 'b'), (3, 'c'), (i128::MIN, 'd'), (i128::MAX, 'e'), (-1, 'f')]);
    assert_eq!(keyed.iter().map(|p| p.1).collect::<String>(), "dbface");
    let entry = |id: &str, date: i64| RecentPost {
        post_id: id.into(),
        post_date: date,
        ..entry_of_post(&Topic::with_id("1"), &Post::default())
    };
    let sorted = sort_newest_first(vec![entry("a", 5), entry("b", 9), entry("c", 5), entry("d", i64::MIN), entry("e", i64::MAX)]);
    assert_eq!(sorted.iter().map(|e| e.post_id.as_str()).collect::<Vec<_>>(), vec!["e", "b", "a", "c", "d"]);
}

#[test]
fn entries_of_a_scan() {
    let author = User { name: UserName::with_nickname("real", "nick"), ..User::anonymous("7") };
    let p = Post { floor: 12, score: 3, author, content: PostContent::plain("body"), ..post("55", 12, 99) };
    let mut topic = Topic::with_id("900");
    topic.subject.content = "Title".to_string();
    topic.subject.tags = vec!["Tag".to_string()];
    let entry = entry_of_post(&topic, &p);
    assert_eq!(entry.topic_id, "900");
    assert_eq!(entry.topic_subject, "Title");
    assert_eq!(entry.post_type, "post");
    assert_eq!(entry.post_id, "55");
    assert_eq!(entry.floor, "#12");
    assert_eq!(entry.author_name, "nick");
    assert_eq!(entry.author_id, "7");
    assert_eq!(entry.content, "body");
    assert_eq!((entry.post_date, entry.score), (99, 3));
    let c = LightPost { content: PostContent::plain("reply"), post_date: 100, score: -1, ..Default::default() };
    let entry = entry_of_comment(&topic, &p, &c);
    assert_eq!(entry.topic_id, "900");
    assert_eq!(entry.topic_subject, "Title");
    assert_eq!(entry.post_type, "comment");
    assert_eq!(entry.post_id, "55");
    assert_eq!(entry.floor, "#12 comment");
    assert_eq!(entry.author_name, "Anonymous");
    assert_eq!(entry.author_id, "0");
    assert_eq!(entry.content, "reply");
    assert_eq!((entry.post_date, entry.score), (100, -1));
    assert_eq!(entry_of_post(&topic, &post("1", -3, 0)).floor, "#-3");
}

#[test]
fn a_backward_scan_stops_at_the_first_page_without_recent_posts() {
    let pages = vec![
        vec![post("1a", 0, 50), post("1b", 1, 51)],
        vec![post("2a", 2, 1), post("2b", 3, 2)],
        vec![post("3a", 4, 3), post("3b", 5, 60)],
        vec![post("4a", 6, 61), post("4b", 7, 62)],
    ];
    assert_eq!(ids(&scan_back_over(pages.clone(), 60)), vec!["4a", "4b", "3b"]);
    assert_eq!(ids(&scan_back_over(pages.clone(), 62)), vec!["4b"]);
    assert_eq!(ids(&scan_back_over(pages.clone(), 63)), Vec::<&str>::new());
    assert_eq!(ids(&scan_back_over(pages.clone(), 0)).len(), 8);
    assert_eq!(ids(&scan_back_over(pages.clone(), 0))[..3], ["4a", "4b", "3a"]);
    assert_eq!(ids(&scan_back_over(pages, 50)), vec!["4a", "4b", "3b"]);
    assert!(scan_back_over(Vec::<Vec<Post>>::new(), 0).is_empty());
    assert!(has_comments(&Post { comment_count: 1, ..Default::default() }));
    assert!(!has_comments(&Post { comment_count: 0, ..Default::default() }));
    assert!(!has_comments(&Post { comment_count: -1, ..Default::default() }));
}

#[test]
fn time_ranges() {
    let range = |count, unit, seconds| Some(TimeRange { count, unit, seconds });
    assert_eq!(parse_time_range("45s"), range(45, RangeUnit::Second, 45));
    assert_eq!(parse_time_range("30m"), range(30, RangeUnit::Minute, 1800));
    assert_eq!(parse_time_range("12H"), range(12, RangeUnit::Hour, 43200));
    assert_eq!(parse_time_range("7d"), range(7, RangeUnit::Day, 604800));
    assert_eq!(parse_time_range("1h"), range(1, RangeUnit::Hour, 3600));
    assert_eq!(parse_time_range("0s"), range(0, RangeUnit::Second, 0));
    assert_eq!(parse_time_range("-2d"), range(-2, RangeUnit::Day, -172800));
    assert_eq!(parse_time_range("second"), range(1, RangeUnit::Second, 1));
    assert_eq!(parse_time_range("Minute"), range(1, RangeUnit::Minute, 60));
    assert_eq!(parse_time_range("hour"), range(1, RangeUnit::Hour, 3600));
    assert_eq!(parse_time_range("day"), range(1, RangeUnit::Day, 86400));
    assert_eq!(parse_time_range("WEEK"), range(1, RangeUnit::Week, 604800));
    assert_eq!(parse_time_range("month"), range(1, RangeUnit::Month, 2592000));
    assert_eq!(parse_time_range("year"), range(1, RangeUnit::Year, 31536000));
    assert_eq!(parse_time_range("9223372036854775807s"), range(i64::MAX, RangeUnit::Second, i64::MAX));
    assert_eq!(parse_time_range("9223372036854775807m"), None);
    assert_eq!(parse_time_range("106751991167301d"), None);
    assert_eq!(parse_time_range("106751991167300d"), range(106751991167300, RangeUnit::Day, 9223372036854720000));
    for bad in ["", "s", "5", "5w", "5 m", "m5", "1.5h", "weeks", "5é"] {
        assert_eq!(parse_time_range(bad), None, "{:?}", bad);
    }
    assert_eq!(RangeUnit::Year.seconds(), 31536000);
    assert_eq!(parse_order("postdate"), TopicOrder::PostDate);
    assert_eq!(parse_order("recommend"), TopicOrder::Recommend);
    assert_eq!(parse_order("lastpost"), TopicOrder::LastPost);
    assert_eq!(parse_order("PostDate"), TopicOrder::LastPost);
    assert_eq!(parse_order(""), TopicOrder::LastPost);
}

#[test]
fn modes_of_reading_a_topic() {
    assert_eq!(read_mode(false, false, 1, 7), ReadMode::FirstPage { shown_page: 7 });
    assert_eq!(read_mode(false, true, 1, 0), ReadMode::FirstPage { shown_page: 0 });
    assert_eq!(read_mode(false, false, 5, 3), ReadMode::OnePage { page: 3 });
    assert_eq!(read_mode(false, false, 5, 0), ReadMode::OnePage { page: 1 });
    assert_eq!(read_mode(false, false, 0, 9), ReadMode::OnePage { page: 9 });
    assert_eq!(read_mode(false, true, 5, 3), ReadMode::ScanBack);
    assert_eq!(read_mode(true, true, 5, 3), ReadMode::ScanBack);
    assert_eq!(read_mode(true, true, 1, 3), ReadMode::ScanBack);
    assert_eq!(read_mode(true, false, 5, 3), ReadMode::AllPages);
    assert_eq!(read_mode(true, false, 1, 3), ReadMode::AllPages);
    assert!(scans_posts(true, 1));
    assert!(!scans_posts(true, 0));
    assert!(!scans_posts(false, 3));
}

#[test]
fn later_pages_come_in_page_order() {
    let results = vec![
        page(4, Some(vec!["4a"])),
        page(2, Some(vec!["2a", "2b"])),
        page(3, None),
        page(1, Some(vec!["1a"])),
        page(0, Some(vec!["0a"])),
    ];
    let again = || {
        vec![
            page(4, Some(vec!["4a"])),
            page(2, Some(vec!["2a", "2b"])),
            page(3, None),
            page(1, Some(vec!["1a"])),
            page(0, Some(vec!["0a"])),
        ]
    };
    assert_eq!(merge_later(results, 0, 4), vec!["1a", "2a", "2b", "4a"]);
    assert_eq!(merge_later(again(), 1, 4), vec!["2a", "2b", "4a"]);
    assert_eq!(merge_later(again(), 1, 2), vec!["2a", "2b"]);
    assert_eq!(merge_later(again(), 0, 9), vec!["1a", "2a", "2b", "4a"]);
    assert_eq!(merge_later(again(), 4, 4), Vec::<&str>::new());
    assert_eq!(merge_later(again(), 5, 2), Vec::<&str>::new());
    assert_eq!(merge_later(again(), u32::MAX, u32::MAX), Vec::<&str>::new());
    assert_eq!(merge_later(Vec::<PageResult<&str>>::new(), 0, 3), Vec::<&str>::new());
}

#[test]
fn a_range_that_names_nothing_is_one_hour() {
    for text in ["", "soon", "12", "h", "1x", "99999999999999999999d"] {
        let range = range_or_hour(text);
        assert_eq!((range.count, range.unit, range.seconds), (1, RangeUnit::Hour, 3600), "{}", text);
    }
    let range = range_or_hour("2D");
    assert_eq!((range.count, range.unit, range.seconds), (2, RangeUnit::Day, 172800));
    let range = range_or_hour("week");
    assert_eq!((range.count, range.unit, range.seconds), (1, RangeUnit::Week, 604800));
}

#[test]
fn products_that_fit() {
    assert_eq!(checked_times(7, 86400), Some(604800));
    assert_eq!(checked_times(-3, 60), Some(-180));
    assert_eq!(checked_times(0, i64::MIN), Some(0));
    assert_eq!(checked_times(i64::MAX, 1), Some(i64::MAX));
    assert_eq!(checked_times(i64::MIN, 1), Some(i64::MIN));
    assert_eq!(checked_times(i64::MIN, -1), None);
    assert_eq!(checked_times(i64::MAX, 2), None);
    assert_eq!(checked_times(i64::MIN, i64::MIN), None);
    assert_eq!(checked_times(3037000500, 3037000500), None);
    assert_eq!(checked_times(3037000499, 3037000499), Some(9223372030926249001));
    assert_eq!(checked_times(-1, 0), Some(0));
}
