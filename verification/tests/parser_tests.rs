use rnga::models::{PostContent, Span, SpanKind};
use rnga::parser::bbcode::{parse_spans, unescape_html};
use rnga::parser::grammar::MAX_DEPTH;
use rnga::parser::{parse_content, parse_subject};

#[test]
fn test_plain_text() {
    let content = parse_content("Hello world");
    assert_eq!(content.spans.len(), 1);
    assert!(matches!(&content.spans[0].kind, SpanKind::Plain { text } if text == "Hello world"));
}

#[test]
fn test_line_break() {
    let content = parse_content("Hello<br/>World");
    assert_eq!(content.spans.len(), 3);
    assert!(matches!(&content.spans[1].kind, SpanKind::LineBreak));
}

#[test]
fn test_simple_tag() {
    let content = parse_content("[b]bold text[/b]");
    assert_eq!(content.spans.len(), 1);
    if let SpanKind::Tagged { tag, spans, .. } = &content.spans[0].kind {
        assert_eq!(tag, "b");
        assert_eq!(spans.len(), 1);
    } else {
        panic!("Expected tagged span");
    }
}

#[test]
fn test_tag_with_attribute() {
    let content = parse_content("[url=http://example.com]link[/url]");
    assert_eq!(content.spans.len(), 1);
    if let SpanKind::Tagged { tag, attributes, .. } = &content.spans[0].kind {
        assert_eq!(tag, "url");
        assert_eq!(attributes, &["http://example.com"]);
    } else {
        panic!("Expected tagged span");
    }
}

#[test]
fn test_sticker() {
    let content = parse_content("[s:ac:doge]");
    assert_eq!(content.spans.len(), 1);
    if let SpanKind::Sticker { name } = &content.spans[0].kind {
        assert_eq!(name, "ac:doge");
    } else {
        panic!("Expected sticker span");
    }
}

#[test]
fn test_at_mention() {
    let content = parse_content("[@username]");
    assert_eq!(content.spans.len(), 1);
    if let SpanKind::Tagged { tag, attributes, .. } = &content.spans[0].kind {
        assert_eq!(tag, "at");
        assert_eq!(attributes, &["username"]);
    } else {
        panic!("Expected at mention");
    }
}

#[test]
fn test_divider() {
    let content = parse_content("======");
    assert_eq!(content.spans.len(), 1);
    assert!(matches!(&content.spans[0].kind, SpanKind::Divider { .. }));
}

#[test]
fn test_nested_tags() {
    let content = parse_content("[quote][b]bold[/b][/quote]");
    assert_eq!(content.spans.len(), 1);
    if let SpanKind::Tagged { tag, spans, .. } = &content.spans[0].kind {
        assert_eq!(tag, "quote");
        assert_eq!(spans.len(), 1);
        if let SpanKind::Tagged { tag: inner_tag, .. } = &spans[0].kind {
            assert_eq!(inner_tag, "b");
        }
    } else {
        panic!("Expected nested tags");
    }
}

#[test]
fn test_subject_parsing() {
    let (tags, content) = parse_subject("[News][Important] Hello World");
    assert_eq!(tags, vec!["News", "Important"]);
    assert_eq!(content, "Hello World");
}

#[test]
fn test_subject_only_tag() {
    let (tags, content) = parse_subject("[SingleTag]");
    assert!(tags.is_empty());
    assert_eq!(content, "[SingleTag]");
}

#[test]
fn test_unescape_double() {
    let text = "&amp;#128514;";
    let unescaped = unescape_html(text);
    assert_eq!(unescaped, "\u{1F602}");
}

fn describe(spans: &[Span]) -> String {
    let mut out = String::new();
    for span in spans {
        match &span.kind {
            SpanKind::Plain { text } => out.push_str(&format!("P({})", text)),
            SpanKind::LineBreak => out.push_str("BR"),
            SpanKind::Sticker { name } => out.push_str(&format!("S({})", name)),
            SpanKind::Divider { spans } => out.push_str(&format!("D[{}]", describe(spans))),
            SpanKind::Tagged { tag, attributes, complex_attributes, spans } => {
                out.push_str(&format!(
                    "T({};{};{})[{}]",
                    tag,
                    attributes.join(","),
                    complex_attributes.join(","),
                    describe(spans)
                ))
            }
        }
    }
    out
}

fn shape(text: &str) -> String {
    let content = parse_content(text);
    assert!(content.parse_error.is_none());
    describe(&content.spans)
}

#[test]
fn subject_with_two_tags() {
    let (tags, content) = parse_subject("[News][Important] Hello");
    assert_eq!(tags, vec!["News", "Important"]);
    assert_eq!(content, "Hello");
}

#[test]
fn bold_text() {
    assert_eq!(shape("[b]bold[/b]"), "T(b;;)[P(bold)]");
}

#[test]
fn link_with_address() {
    assert_eq!(shape("[url=http://x]link[/url]"), "T(url;http://x;)[P(link)]");
}

#[test]
fn bare_divider() {
    assert_eq!(shape("======"), "D[]");
}

#[test]
fn plain_text_round_trip() {
    for text in ["Hello world", "line one\nline two\n", "a<br/>b", "a = b == c ===== d", "x]y", ""] {
        let content = parse_content(text);
        assert!(content.parse_error.is_none());
        assert_eq!(content.to_plain_text(), text.replace("<br/>", "\n"));
        assert_eq!(content.raw, text.replace('\n', "<br/>"));
    }
}

#[test]
fn text_without_markup_comes_back_as_it_went_in() {
    for text in ["", "x", "two\nlines", "\n\n", "a < b > c", "<br", "br/>", "= == === ==== =====", "tab\there", "你好，世界", "]"] {
        let content = parse_content(text);
        assert!(content.parse_error.is_none());
        assert_eq!(content.to_plain_text(), text);
    }
}

#[test]
fn markup_is_stripped_from_plain_text() {
    assert_eq!(parse_content("[b]bold[/b] and [i]it[/i]").to_plain_text(), "bold and it");
    assert_eq!(parse_content("a[s:ac:doge]b").to_plain_text(), "ab");
    assert_eq!(parse_content("hi [@ bob ]!").to_plain_text(), "hi !");
    assert_eq!(parse_content("x[stripbr]y").to_plain_text(), "x\ny");
    assert_eq!(parse_content("======inner===after").to_plain_text(), "innerafter");
    assert_eq!(parse_content("&lt;b&gt; &amp;amp; done").to_plain_text(), "<b> & done");
}

#[test]
fn deep_nesting_degrades_to_plain_text() {
    let deep = "[b]".repeat(MAX_DEPTH + 1) + "x\ny";
    let content = parse_content(&deep);
    let error = content.parse_error.clone().expect("a structural failure");
    assert!(!error.is_empty());
    assert_eq!(content.spans.len(), 1);
    assert!(content.spans[0].is_plain());
    assert_eq!(content.to_plain_text(), deep);
    assert_eq!(content.raw, deep.replace('\n', "<br/>"));
}

#[test]
fn nesting_at_the_limit_still_parses() {
    let deep = "[b]".repeat(MAX_DEPTH) + "x";
    let content = parse_content(&deep);
    assert!(content.parse_error.is_none());
    assert_eq!(content.to_plain_text(), "x");
    assert_eq!(content.spans.len(), 1);
}

#[test]
fn line_breaks_and_plain_runs() {
    assert_eq!(shape("Hello<br/>World"), "P(Hello)BRP(World)");
    assert_eq!(shape("a\nb"), "P(a)BRP(b)");
    assert_eq!(shape("[stripbr]"), "BR");
    assert_eq!(shape("<br/><br/>"), "BRBR");
    assert_eq!(shape("<br"), "P(<br)");
}

#[test]
fn dividers() {
    assert_eq!(shape("====="), "P(=====)");
    assert_eq!(shape("========"), "D[]");
    assert_eq!(shape("======title======"), "D[P(title)]");
    assert_eq!(shape("======title===rest"), "D[P(title)]P(rest)");
    assert_eq!(shape("======title"), "D[]P(title)");
    assert_eq!(shape("======<br/>x"), "D[]BRP(x)");
    assert_eq!(shape("======[b]x[/b]"), "D[]T(b;;)[P(x)]");
    assert_eq!(shape("======a[b]c[/b]===="), "D[P(a)T(b;;)[P(c)]]");
    assert_eq!(shape("x======"), "P(x)D[]");
}

#[test]
fn stickers_and_mentions() {
    assert_eq!(shape("[s:a][s:b]"), "S(a)S(b)");
    assert_eq!(shape("[s:]"), "S()");
    assert_eq!(shape("[s:open"), "P([s:open)");
    assert_eq!(shape("[@  bob  ]"), "T(at;bob;)[]");
    assert_eq!(shape("[@]"), "T(at;;)[]");
}

#[test]
fn tags() {
    assert_eq!(shape("[B]x[/b]"), "T(b;;)[P(x)]");
    assert_eq!(shape("[b]x[/B]"), "T(b;;)[P(x)]");
    assert_eq!(shape("[b]x"), "T(b;;)[P(x)]");
    assert_eq!(shape("[b]"), "T(b;;)[]");
    assert_eq!(shape("[/b]"), "P([/b])");
    assert_eq!(shape("[]"), "P([])");
    assert_eq!(shape("[ ]"), "P([ ])");
    assert_eq!(shape("[open"), "P([open)");
    assert_eq!(shape("[b]x[/bb]y[/b]z"), "T(b;;)[P(x[/bb]y)]P(z)");
    assert_eq!(shape("[color=red,blue,]x[/color]"), "T(color;red,blue,;)[P(x)]");
    assert_eq!(shape("[color=\tred\t,b]x[/color]"), "T(color;red,b;)[P(x)]");
    assert_eq!(shape("[color=red, blue]x[/color]"), "T(color=red,;;blue)[P(x[/color])]");
    assert_eq!(shape("[img  a   b ]x[/img]"), "T(img;;a,b)[P(x)]");
    assert_eq!(shape("[tag a=b]x[/tag]"), "T(tag;;a=b)[P(x)]");
    assert_eq!(shape("[=x]y"), "P([=x]y)");
    assert_eq!(shape("[a][b]1[/b]2[/a]3"), "T(a;;)[T(b;;)[P(1)]P(2)]P(3)");
    assert_eq!(shape("[a]1[/b]2"), "T(a;;)[P(1[/b]2)]");
    assert_eq!(shape("a[b]c"), "P(a)T(b;;)[P(c)]");
}

#[test]
fn non_ascii_text_is_kept() {
    assert_eq!(shape("你好[b]世界[/b]！"), "P(你好)T(b;;)[P(世界)]P(！)");
    assert_eq!(parse_content("é\u{1F602}x").to_plain_text(), "é\u{1F602}x");
    assert_eq!(shape("[Ä]x[/ä]"), "T(ä;;)[P(x)]");
}

#[test]
fn parse_spans_reports_positions() {
    let input: Vec<char> = "ab[/q]cd".chars().collect();
    let (spans, next) = parse_spans(&input, 0, Some("q"), 0).unwrap();
    assert_eq!(describe(&spans), "P(ab)");
    assert_eq!(next, 6);
    let (spans, next) = parse_spans(&input, 0, None, 0).unwrap();
    assert_eq!(describe(&spans), "P(ab[/q]cd)");
    assert_eq!(next, 8);
}

#[test]
fn subjects() {
    assert_eq!(parse_subject("Hello"), (vec![], "Hello".to_string()));
    assert_eq!(parse_subject(""), (vec![], String::new()));
    assert_eq!(parse_subject("[ a ]  [b]c"), (vec!["a".to_string(), "b".to_string()], "c".to_string()));
    assert_eq!(parse_subject("[a][b]"), (vec!["a".to_string()], "[b]".to_string()));
    assert_eq!(parse_subject("[a][ ]"), (vec![], "[a]".to_string()));
    assert_eq!(parse_subject("[]x"), (vec![], "x".to_string()));
    assert_eq!(parse_subject("[]"), (vec![], String::new()));
    assert_eq!(parse_subject("[a] [open"), (vec!["a".to_string()], "[open".to_string()));
    assert_eq!(parse_subject("x [a]"), (vec![], "x [a]".to_string()));
    assert_eq!(parse_subject("&#91;a&#93; b"), (vec!["a".to_string()], "b".to_string()));
    assert_eq!(parse_subject("[a]   "), (vec![], "[a]".to_string()));
}

#[test]
fn unescaping_is_done_twice() {
    assert_eq!(unescape_html("plain"), "plain");
    assert_eq!(unescape_html("&amp;lt;"), "<");
    assert_eq!(unescape_html("&amp;amp;lt;"), "&lt;");
    assert_eq!(unescape_html("a &amp; b"), "a & b");
    let content: PostContent = parse_content("&amp;#91;b&amp;#93;x&amp;#91;/b&amp;#93;");
    assert_eq!(describe(&content.spans), "T(b;;)[P(x)]");
}

#[test]
fn deep_nesting_inside_a_divider_is_not_lost() {
    let inner = "[b]".repeat(MAX_DEPTH + 1) + "x";
    let text = format!("======a{}===after", inner);
    let content = parse_content(&text);
    assert!(content.parse_error.is_some());
    assert_eq!(content.spans.len(), 1);
    assert_eq!(content.to_plain_text(), text);

    let shallow = format!("======a{}===after", "[b]".repeat(MAX_DEPTH) + "x");
    let content = parse_content(&shallow);
    assert!(content.parse_error.is_none());
    assert_eq!(content.to_plain_text(), "axafter");

    let in_tag = format!("[q]======a{}===[/q]", "[b]".repeat(MAX_DEPTH - 1) + "x");
    let content = parse_content(&in_tag);
    assert!(content.parse_error.is_none());
    assert_eq!(content.to_plain_text(), "ax");
    let in_tag = format!("[q]======a{}===[/q]", "[b]".repeat(MAX_DEPTH) + "x");
    let content = parse_content(&in_tag);
    assert!(content.parse_error.is_some());
    assert_eq!(content.to_plain_text(), in_tag);
}
