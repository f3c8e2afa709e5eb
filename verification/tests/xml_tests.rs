use rnga::error::Error;
use rnga::parser::xml::{
    check_nga_error, check_query, count_brackets, depth_query, has_prefix, has_unquoted,
    is_well_formed,
    parse_int, read_forest, read_tree, read_trees, AttrMap, NodeRecord, XPathResult, XmlAttribute,
    XmlNode, MAX_NODE_DEPTH, MAX_QUERY_BRACKETS, MAX_QUERY_LENGTH,
};
use rnga::parser::{extract_kv, parse_timestamp, XmlDocument};

#[test]
fn test_parse_int() {
    assert_eq!(parse_int("123").unwrap(), 123);
    assert_eq!(parse_int("-456").unwrap(), -456);
    assert_eq!(parse_int("1.5e9").unwrap(), 1500000000);
    assert_eq!(parse_int("123.45").unwrap(), 123);
    assert_eq!(parse_int("").unwrap(), 0);
}

#[test]
fn test_extract_kv() {
    let text = "key1\tval1\tkey2\tval2\tkey3\tval3";
    let kv = extract_kv(text);
    assert_eq!(kv.get("key1"), Some(&"val1".to_owned()));
    assert_eq!(kv.get("key2"), Some(&"val2".to_owned()));
    assert_eq!(kv.get("key3"), Some(&"val3".to_owned()));
}

#[test]
fn test_xml_parse() {
    let xml = r#"<?xml version="1.0"?><root><item id="1" name="test"/></root>"#;
    let doc = XmlDocument::parse(xml).unwrap();

    let items = doc.select("//item").unwrap();
    assert_eq!(items.len(), 1);
    assert_eq!(items[0].attr("id"), Some("1".to_owned()));
    assert_eq!(items[0].attr("name"), Some("test".to_owned()));
}

#[test]
fn test_nga_error_detection() {
    let error_xml = r#"<error code="1" message="Not logged in"/>"#;
    let result = check_nga_error(error_xml);
    assert!(result.is_err());

    let ok_xml = r#"<data><item id="1"/></data>"#;
    assert!(check_nga_error(ok_xml).is_ok());
}

fn parse_error_text(text: &str) -> String {
    match parse_int(text) {
        Err(Error::Parse(m)) => m,
        other => panic!("expected a parse error, got {:?}", other),
    }
}

#[test]
fn integers_in_every_notation() {
    assert_eq!(parse_int("  42  ").unwrap(), 42);
    assert_eq!(parse_int("   ").unwrap(), 0);
    assert_eq!(parse_int("+7").unwrap(), 7);
    assert_eq!(parse_int("-0").unwrap(), 0);
    assert_eq!(parse_int("007").unwrap(), 7);
    assert_eq!(parse_int("9223372036854775807").unwrap(), i64::MAX);
    assert_eq!(parse_int("-9223372036854775808").unwrap(), i64::MIN);
    assert_eq!(parse_int("-123.99").unwrap(), -123);
    assert_eq!(parse_int("0.99").unwrap(), 0);
    assert_eq!(parse_int(".5").unwrap(), 0);
    assert_eq!(parse_int("5.").unwrap(), 5);
    assert_eq!(parse_int("1e3").unwrap(), 1000);
    assert_eq!(parse_int("1E3").unwrap(), 1000);
    assert_eq!(parse_int("1.5e+2").unwrap(), 150);
    assert_eq!(parse_int("12345e-2").unwrap(), 123);
    assert_eq!(parse_int("1.2345e2").unwrap(), 123);
    assert_eq!(parse_int("-1.5e1").unwrap(), -15);
    assert_eq!(parse_int("0.001e3").unwrap(), 1);
    assert_eq!(parse_int("1e-5").unwrap(), 0);
    assert_eq!(parse_int("0e99999999999999999999999").unwrap(), 0);
    assert_eq!(parse_int("1e99999999999999999999999").unwrap(), i64::MAX);
    assert_eq!(parse_int("-1e99999999999999999999999").unwrap(), i64::MIN);
    assert_eq!(parse_int("1e-99999999999999999999999").unwrap(), 0);
    assert_eq!(parse_int("1e19").unwrap(), i64::MAX);
    assert_eq!(parse_int("-1e19").unwrap(), i64::MIN);
    assert_eq!(parse_int("1e18").unwrap(), 1_000_000_000_000_000_000);
    assert_eq!(parse_int("9223372036854775807.9").unwrap(), i64::MAX);
    assert_eq!(parse_int("9223372036854775808.0").unwrap(), i64::MAX);
    assert_eq!(parse_int("-9223372036854775808.5").unwrap(), i64::MIN);
    assert_eq!(parse_int("0.000000000000000000001e21").unwrap(), 1);
}

#[test]
fn integers_that_are_refused() {
    assert_eq!(parse_error_text("abc"), "Invalid integer: abc");
    assert_eq!(parse_error_text(" 12a "), "Invalid integer: 12a");
    assert_eq!(parse_error_text("9223372036854775808"), "Invalid integer: 9223372036854775808");
    assert_eq!(parse_error_text("-"), "Invalid integer: -");
    assert_eq!(parse_error_text("1 2"), "Invalid integer: 1 2");
    assert_eq!(parse_error_text("."), "Invalid number: .");
    assert_eq!(parse_error_text("e5"), "Invalid number: e5");
    assert_eq!(parse_error_text("1e"), "Invalid number: 1e");
    assert_eq!(parse_error_text("1e+"), "Invalid number: 1e+");
    assert_eq!(parse_error_text("1.2.3"), "Invalid number: 1.2.3");
    assert_eq!(parse_error_text("1e5x"), "Invalid number: 1e5x");
    assert_eq!(parse_error_text("--1.0"), "Invalid number: --1.0");
    assert_eq!(parse_error_text("true"), "Invalid number: true");
    assert_eq!(parse_timestamp("1700000000"), Some(1700000000));
    assert_eq!(parse_timestamp("x"), None);
    assert_eq!(parse_timestamp(""), Some(0));
}

fn nga_error(xml: &str) -> (String, String) {
    match check_nga_error(xml) {
        Err(Error::NGAApi { code, message }) => (code, message),
        other => panic!("expected a server error, got {:?}", other),
    }
}

#[test]
fn inline_server_errors() {
    assert_eq!(
        nga_error(r#"<error code="1" message="Not logged in"/>"#),
        ("1".to_string(), "Not logged in".to_string())
    );
    assert_eq!(
        nga_error(r#"<root><__error code="-4" message="a &amp; b"/></root>"#),
        ("-4".to_string(), "a & b".to_string())
    );
    assert_eq!(
        nga_error(r#"<x error code="9"/>"#),
        ("9".to_string(), "Unknown error".to_string())
    );
    assert_eq!(
        nga_error(r#"<__error code="9" message="open/>"#),
        ("9".to_string(), String::new())
    );
    assert_eq!(
        nga_error("<root><__error>boom</__error></root>"),
        ("-1".to_string(), "Error response received".to_string())
    );
    assert_eq!(
        nga_error(r#"<__error code="unclosed/>"#),
        ("-1".to_string(), "Error response received".to_string())
    );
    assert!(check_nga_error(r#"<a>error code=</a>"#).is_ok());
    assert!(check_nga_error(r#"<a code="1" message="fine"/>"#).is_ok());
    assert!(check_nga_error("").is_ok());
    let reported = XmlDocument::parse(r#"<root><error code="2" message="login"/></root>"#);
    match reported {
        Err(e) => {
            assert!(e.is_auth_error());
            assert_eq!(e.to_string(), "NGA API error [2]: login");
        }
        Ok(_) => panic!("the server's error comes first"),
    }
}

#[test]
fn key_value_text() {
    let kv = extract_kv(" a \t 1 \t\tskipped\tb\t2\tlonely");
    assert_eq!(kv.get("a"), Some(&"1".to_owned()));
    assert_eq!(kv.get("b"), Some(&"2".to_owned()));
    assert_eq!(kv.get(""), None);
    assert_eq!(kv.get("lonely"), None);
    assert_eq!(kv.len(), 2);
    let twice = extract_kv("k\t1\tk\t2");
    assert_eq!(twice.get("k"), Some(&"2".to_owned()));
    assert_eq!(twice.len(), 1);
    assert_eq!(extract_kv("").len(), 0);
    assert_eq!(extract_kv("only").len(), 0);
    let mut map = AttrMap::new();
    map.insert("x".to_string(), "1".to_string());
    map.insert("x".to_string(), "2".to_string());
    assert_eq!(map.get("x"), Some(&"2".to_string()));
    assert!(map.contains_key("x"));
    assert!(!map.contains_key("y"));
    assert_eq!(map.len(), 1);
    map.insert("y".to_string(), "3".to_string());
    map.insert("x".to_string(), "4".to_string());
    assert_eq!(map.len(), 2);
    assert_eq!(map.get("x"), Some(&"4".to_string()));
    assert_eq!(AttrMap::new().len(), 0);
}

fn element(name: &str, attributes: Vec<(&str, &str)>, children: Vec<XmlNode>) -> XmlNode {
    XmlNode::Element {
        name: name.to_string(),
        attributes: attributes
            .into_iter()
            .map(|(k, v)| XmlAttribute { name: k.to_string(), namespace: None, value: v.to_string() })
            .collect(),
        children,
    }
}

fn text(t: &str) -> XmlNode {
    XmlNode::Text(t.to_string())
}

#[test]
fn node_accessors() {
    let node = element(
        "item",
        vec![("id", "7"), ("flag", "TRUE"), ("n", " 12 "), ("bad", "x"), ("id", "8")],
        vec![
            text("a"),
            element("name", vec![], vec![text("inner"), element("deep", vec![], vec![text("no")]), text("!")]),
            XmlNode::Other,
            text("b"),
            element("id", vec![], vec![text("child")]),
            element("name", vec![("k", "v")], vec![]),
        ],
    );
    assert_eq!(node.name(), "item");
    assert_eq!(node.attr("id"), Some("7".to_string()));
    assert_eq!(node.attr("missing"), None);
    assert_eq!(node.require_attr("id").unwrap(), "7");
    match node.require_attr("missing") {
        Err(Error::MissingField(f)) => assert_eq!(f, "missing"),
        other => panic!("expected a missing field, got {:?}", other),
    }
    assert_eq!(node.attr_int("n"), Some(12));
    assert_eq!(node.attr_int("bad"), None);
    assert_eq!(node.attr_int("missing"), None);
    assert_eq!(node.attr_int_or("n", 5), 12);
    assert_eq!(node.attr_int_or("bad", 5), 5);
    assert_eq!(node.attr_int_or("missing", 5), 5);
    assert!(node.attr_bool("flag"));
    assert!(!node.attr_bool("id"));
    assert!(!node.attr_bool("missing"));
    assert!(element("x", vec![("f", "1")], vec![]).attr_bool("f"));
    assert_eq!(node.text(), "ab");
    assert_eq!(node.children().len(), 3);
    assert_eq!(node.children_named("name").len(), 2);
    assert_eq!(node.children_named("name")[0].text(), "inner!");
    assert_eq!(node.child_named("name").unwrap().text(), "inner!");
    assert!(node.child_named("nothing").is_none());
    let attrs = node.attrs();
    assert_eq!(attrs.get("id"), Some(&"child".to_string()));
    assert_eq!(attrs.get("name"), Some(&String::new()));
    assert_eq!(attrs.get("flag"), Some(&"TRUE".to_string()));
    assert_eq!(attrs.get("deep"), None);
    assert_eq!(attrs.len(), 5);
    assert_eq!(text("t").text(), "t");
    assert_eq!(text("t").name(), "");
    assert_eq!(text("t").attr("x"), None);
    assert_eq!(text("t").children().len(), 0);
    assert_eq!(text("t").attrs().len(), 0);
    assert_eq!(XmlNode::Other.text(), "");
    let spaced = XmlNode::Element {
        name: "e".to_string(),
        attributes: vec![
            XmlAttribute { name: "a".into(), namespace: Some("urn:x".into()), value: "ns".into() },
            XmlAttribute { name: "a".into(), namespace: None, value: "plain".into() },
        ],
        children: vec![],
    };
    assert_eq!(spaced.attr("a"), Some("plain".to_string()));
    assert_eq!(spaced.attrs().get("a"), Some(&"plain".to_string()));
}

#[test]
fn documents_and_queries() {
    let xml = r#"<?xml version="1.0"?><root><!-- c --><a id="1">x<b>y</b>z</a><a id="2"/><n> 41.9 </n><e/></root>"#;
    let doc = XmlDocument::parse(xml).unwrap();
    let nodes = doc.select("/root/a").unwrap();
    assert_eq!(nodes.len(), 2);
    assert_eq!(nodes[0].attr("id"), Some("1".to_string()));
    assert_eq!(nodes[0].text(), "xz");
    assert_eq!(nodes[0].children_named("b")[0].text(), "y");
    assert_eq!(nodes[0].attrs().get("b"), Some(&"y".to_string()));
    assert_eq!(nodes[1].attr("id"), Some("2".to_string()));
    assert_eq!(doc.select("/root/none").unwrap().len(), 0);
    assert_eq!(doc.select("count(/root/a)").unwrap().len(), 0);
    assert_eq!(doc.select_one("/root/a").unwrap().unwrap().attr("id"), Some("1".to_string()));
    assert!(doc.select_one("/root/none").unwrap().is_none());
    assert_eq!(doc.string("/root/a").unwrap(), "xz");
    assert_eq!(doc.string("/root/none").unwrap(), "");
    assert_eq!(doc.string("count(/root/a)").unwrap(), "2");
    assert_eq!(doc.string("'lit'").unwrap(), "lit");
    assert_eq!(doc.string("1 = 1").unwrap(), "true");
    assert_eq!(doc.string_opt("/root/a"), Some("xz".to_string()));
    assert_eq!(doc.string_opt("/root/e"), None);
    assert_eq!(doc.string_opt("/root/none"), None);
    assert_eq!(doc.string_opt("/root/__P/0/username"), None);
    assert_eq!(doc.integer("/root/n").unwrap(), 41);
    assert!(matches!(doc.integer("/root/a"), Err(Error::Parse(_))));
    assert!(matches!(doc.integer("///"), Err(Error::XPath(_))));
    assert_eq!(doc.int_or("/root/n", 7), 41);
    assert_eq!(doc.int_or("/root/a", 7), 7);
    assert_eq!(doc.int_or("/root/none", 7), 0);
    assert_eq!(doc.int_or("///", 7), 7);
    assert!(matches!(doc.select("///"), Err(Error::XPath(_))));
    assert!(matches!(doc.xpath("/root/a").unwrap(), XPathResult::Nodes(ref n) if n.len() == 2));
    assert!(matches!(doc.xpath("string(/root/a/@id)").unwrap(), XPathResult::Text(ref t) if t == "1"));
    match doc.select("/").unwrap().as_slice() {
        [XmlNode::Other] => {}
        other => panic!("the root is no element: {:?}", other),
    }
    match doc.select("/root/a[1]/@id").unwrap().as_slice() {
        [XmlNode::Other] => {}
        other => panic!("an attribute is no element: {:?}", other),
    }
    match doc.select("/root/a/text()").unwrap().as_slice() {
        [XmlNode::Text(a), XmlNode::Text(b)] => {
            assert_eq!(a, "x");
            assert_eq!(b, "z");
        }
        other => panic!("expected two text nodes: {:?}", other),
    }
}

#[test]
fn malformed_documents() {
    assert!(is_well_formed("<a/>"));
    assert!(!is_well_formed("<a>"));
    assert!(!is_well_formed(""));
    assert!(!is_well_formed("plain"));
    match XmlDocument::parse("<a><b></a>") {
        Err(Error::Xml(m)) => assert!(!m.is_empty()),
        Err(other) => panic!("expected an XML error, got {:?}", other),
        Ok(_) => panic!("expected an XML error"),
    }
}

#[test]
fn queries_with_a_namespace_prefix_are_refused() {
    let doc = XmlDocument::parse(r#"<r><item id="1">t</item></r>"#).unwrap();
    for query in ["/a:b", "//x:item", "/r/x:*", "/r/item[@a:id]", "/r/child::a:b", "a:f()", "$a:b", ":"] {
        match doc.select(query) {
            Err(Error::XPath(m)) => assert_eq!(m, "Namespace prefixes are not supported", "{}", query),
            other => panic!("{} should be refused, got {:?}", query, other),
        }
        assert!(matches!(doc.xpath(query), Err(Error::XPath(_))));
        assert!(matches!(doc.select_one(query), Err(Error::XPath(_))));
        assert!(matches!(doc.string(query), Err(Error::XPath(_))));
        assert!(matches!(doc.integer(query), Err(Error::XPath(_))));
        assert_eq!(doc.string_opt(query), None);
        assert_eq!(doc.int_or(query, 9), 9);
    }
    assert_eq!(doc.select("/r/child::item").unwrap().len(), 1);
    assert_eq!(doc.select("/r/descendant-or-self::item").unwrap().len(), 1);
    assert_eq!(doc.string("'a:b'").unwrap(), "a:b");
    assert_eq!(doc.string("\"it's a:b\"").unwrap(), "it's a:b");
    assert_eq!(doc.select("/r/item[.='x:y']").unwrap().len(), 0);
    assert_eq!(doc.string("concat('::', /r/item)").unwrap(), "::t");
    assert!(has_prefix("a:b"));
    assert!(has_prefix("'a' : b"));
    assert!(!has_prefix("'a:b"));
    assert!(matches!(doc.select("'a:b"), Err(Error::XPath(_))));
    assert!(!has_prefix("'a:b'"));
    assert!(!has_prefix("child::b"));
    assert!(has_prefix("child:::b"));
    assert!(!has_prefix(""));
}

fn nested(levels: usize) -> String {
    let mut text = String::new();
    for _ in 0..levels {
        text.push_str("<a>");
    }
    text.push('x');
    for _ in 0..levels {
        text.push_str("</a>");
    }
    text
}

fn depth_of(node: &XmlNode) -> usize {
    let mut depth = 0;
    let mut at = node;
    while let XmlNode::Element { children, .. } = at {
        depth += 1;
        at = &children[0];
    }
    depth
}

#[test]
fn nodes_are_read_down_to_a_fixed_depth() {
    let doc = XmlDocument::parse(&nested(MAX_NODE_DEPTH)).unwrap();
    let nodes = doc.select("/a").unwrap();
    assert_eq!(nodes.len(), 1);
    assert_eq!(depth_of(&nodes[0]), MAX_NODE_DEPTH);
    assert_eq!(doc.string("string(/a)").unwrap(), "x");
    assert_eq!(doc.select("//a").unwrap().len(), MAX_NODE_DEPTH);

    match XmlDocument::parse(&nested(MAX_NODE_DEPTH + 1)) {
        Err(Error::Xml(m)) => assert_eq!(m, "Elements are nested too deeply"),
        other => panic!("expected a refusal, got {:?}", other.is_ok()),
    }
    let wide = format!("<r>{}{}</r>", nested(3), nested(MAX_NODE_DEPTH));
    match XmlDocument::parse(&wide) {
        Err(Error::Xml(m)) => assert_eq!(m, "Elements are nested too deeply"),
        other => panic!("expected a refusal, got {:?}", other.is_ok()),
    }
    let wide = format!("<r>{}{}</r>", nested(MAX_NODE_DEPTH - 1), nested(3));
    assert!(XmlDocument::parse(&wide).is_ok());
}

#[test]
fn very_deep_documents_are_refused_without_harm() {
    assert!(matches!(XmlDocument::parse(&nested(20_000)), Err(Error::Xml(_))));
    assert!(is_well_formed(&nested(20_000)));
}

#[test]
fn the_query_for_deep_elements() {
    let query = depth_query();
    assert_eq!(query.len(), 2 * (MAX_NODE_DEPTH + 1));
    assert!(query.starts_with("/*/*/*"));
    assert_eq!(query.replace("/*", ""), "");
    assert_eq!(check_query(&query), None);
}

#[test]
fn long_and_deeply_nested_queries_are_refused() {
    let doc = XmlDocument::parse("<r><a>1</a></r>").unwrap();
    let open = "(".repeat(MAX_QUERY_BRACKETS);
    let close = ")".repeat(MAX_QUERY_BRACKETS);
    assert_eq!(doc.string(&format!("{}/r/a{}", open, close)).unwrap(), "1");
    let predicates = "[1]".repeat(MAX_QUERY_BRACKETS);
    assert_eq!(doc.select(&format!("/r/a{}", predicates)).unwrap().len(), 1);
    match doc.string(&format!("({}/r/a{})", open, close)) {
        Err(Error::XPath(m)) => assert_eq!(m, "Query is nested too deeply"),
        other => panic!("expected a refusal, got {:?}", other),
    }
    match doc.select(&format!("/r/a{}[1]", predicates)) {
        Err(Error::XPath(m)) => assert_eq!(m, "Query is nested too deeply"),
        other => panic!("expected a refusal, got {:?}", other.map(|n| n.len())),
    }
    assert!(matches!(doc.select(&"(".repeat(MAX_QUERY_BRACKETS)), Err(Error::XPath(_))));
    assert!(matches!(doc.select(&"-".repeat(MAX_QUERY_LENGTH)), Err(Error::XPath(_))));

    let long = format!("/r/a{}", " ".repeat(MAX_QUERY_LENGTH - 4));
    assert_eq!(long.chars().count(), MAX_QUERY_LENGTH);
    assert_eq!(doc.string(&long).unwrap(), "1");
    match doc.string(&format!("{} ", long)) {
        Err(Error::XPath(m)) => assert_eq!(m, "Query is too long"),
        other => panic!("expected a refusal, got {:?}", other),
    }
    let steps = "/.".repeat(500);
    assert_eq!(doc.select(&format!("/r{}", steps)).unwrap().len(), 1);

    assert_eq!(check_query("/r/a"), None);
    assert_eq!(check_query("/r/x:a").as_deref(), Some("Namespace prefixes are not supported"));
    assert_eq!(check_query(&"(".repeat(33)).as_deref(), Some("Query is nested too deeply"));
    assert_eq!(check_query(&"[".repeat(1025)).as_deref(), Some("Query is too long"));
    assert_eq!(count_brackets(&"a(b[c])(".chars().collect()), 3);
    assert_eq!(count_brackets(&Vec::new()), 0);
}

fn record(name: &str, children: usize) -> NodeRecord {
    NodeRecord::Element { name: name.to_owned(), attributes: Vec::new(), children }
}

#[test]
fn records_are_put_together_in_document_order() {
    let records = vec![
        record("r", 3),
        record("a", 1),
        NodeRecord::Text("one".to_owned()),
        NodeRecord::Other,
        record("b", 0),
    ];
    let (node, next) = read_tree(&records, 0, 8).unwrap();
    assert_eq!(next, 5);
    match &node {
        XmlNode::Element { name, children, .. } => {
            assert_eq!(name, "r");
            assert_eq!(children.len(), 3);
            match &children[0] {
                XmlNode::Element { name, children, .. } => {
                    assert_eq!(name, "a");
                    assert_eq!(children.len(), 1);
                    assert!(matches!(&children[0], XmlNode::Text(t) if t == "one"));
                }
                other => panic!("unexpected {:?}", other),
            }
            assert!(matches!(&children[1], XmlNode::Other));
            assert!(matches!(&children[2], XmlNode::Element { name, children, .. } if name == "b" && children.is_empty()));
        }
        other => panic!("unexpected {:?}", other),
    }
    let (node, next) = read_tree(&records, 1, 1).unwrap();
    assert_eq!(next, 3);
    assert!(matches!(node, XmlNode::Element { .. }));
    assert!(read_tree(&records, 0, 1).is_none());
    assert!(read_tree(&records, 1, 0).is_none());
    assert!(read_tree(&records, 5, 8).is_none());
    assert!(read_tree(&vec![record("r", 2), NodeRecord::Other], 0, 8).is_none());
    let (nodes, next) = read_forest(&records, 1, 3, 8).unwrap();
    assert_eq!((nodes.len(), next), (3, 5));
    let (nodes, next) = read_forest(&records, 2, 0, 0).unwrap();
    assert_eq!((nodes.len(), next), (0, 2));
    assert!(read_forest(&records, 1, 4, 8).is_none());
    let lists = vec![vec![NodeRecord::Other, record("a", 0)], vec![record("b", 0)]];
    let nodes = read_trees(&lists).unwrap();
    assert_eq!(nodes.len(), 2);
    assert!(matches!(&nodes[0], XmlNode::Other));
    assert!(read_trees(&vec![Vec::new()]).is_none());
    assert_eq!(read_trees(&Vec::new()).unwrap().len(), 0);
}

#[test]
fn nodes_of_every_kind_keep_their_place() {
    let doc = XmlDocument::parse(
        "<r><!-- c --><a id=\"1\">x<?p q?><b>y</b><![CDATA[z]]></a><c/>t</r>",
    )
    .unwrap();
    let nodes = doc.select("/r").unwrap();
    assert_eq!(nodes.len(), 1);
    match &nodes[0] {
        XmlNode::Element { name, children, .. } => {
            assert_eq!(name, "r");
            assert_eq!(children.len(), 4);
            assert!(matches!(&children[0], XmlNode::Other));
            match &children[1] {
                XmlNode::Element { name, attributes, children } => {
                    assert_eq!(name, "a");
                    assert_eq!(attributes.len(), 1);
                    assert_eq!(attributes[0].name, "id");
                    assert_eq!(attributes[0].value, "1");
                    assert!(matches!(&children[0], XmlNode::Text(t) if t == "x"));
                    assert!(matches!(&children[1], XmlNode::Other));
                    assert!(matches!(&children[2], XmlNode::Element { name, children, .. }
                        if name == "b" && children.len() == 1));
                    assert!(matches!(children.last(), Some(XmlNode::Text(t)) if t == "z"));
                }
                other => panic!("unexpected {:?}", other),
            }
            assert!(matches!(&children[2], XmlNode::Element { name, children, .. }
                if name == "c" && children.is_empty()));
            assert!(matches!(&children[3], XmlNode::Text(t) if t == "t"));
        }
        other => panic!("unexpected {:?}", other),
    }
    let names: Vec<String> = doc
        .select("//*")
        .unwrap()
        .iter()
        .map(|n| match n {
            XmlNode::Element { name, .. } => name.clone(),
            _ => String::new(),
        })
        .collect();
    assert_eq!(names, ["r", "a", "b", "c"]);
    let attributes = doc.select("/r/a/@id").unwrap();
    assert_eq!(attributes.len(), 1);
    assert!(matches!(&attributes[0], XmlNode::Other));
    let root = doc.select("/").unwrap();
    assert_eq!(root.len(), 1);
    assert!(matches!(&root[0], XmlNode::Other));
    let texts = doc.select("/r/a/text()").unwrap();
    assert!(texts.iter().all(|n| matches!(n, XmlNode::Text(_))));
    assert!(!texts.is_empty());
}

#[test]
fn queries_without_one_value_are_refused() {
    let doc = XmlDocument::parse(
        "<r xmlns:a=\"A\" xmlns:b=\"B\"><x>10000000000000000</x><x>1</x><x>-10000000000000000</x></r>",
    )
    .unwrap();
    for (query, message) in [
        ("sum(/r/x)", "The function sum() is not supported"),
        ("1 + sum(/r/x)", "The function sum() is not supported"),
        ("/r/x[sum(.) > 0]", "The function sum() is not supported"),
        ("name(/r)", "The function name() is not supported"),
        ("/r/*[name()='x']", "The function name() is not supported"),
        ("local-name(/r)", "The function name() is not supported"),
        ("/r/namespace::*", "The namespace axis is not supported"),
        ("string(/r/namespace::node())", "The namespace axis is not supported"),
    ] {
        match doc.xpath(query) {
            Err(Error::XPath(m)) => assert_eq!(m, message, "{}", query),
            other => panic!("{} should be refused, got {:?}", query, other),
        }
        assert_eq!(check_query(query).as_deref(), Some(message));
        assert_eq!(doc.string_opt(query), None);
        assert_eq!(doc.int_or(query, 7), 7);
    }
    assert_eq!(doc.string("'sum(/r/x)'").unwrap(), "sum(/r/x)");
    assert_eq!(doc.string("concat(\"name(\", 'namespace::')").unwrap(), "name(namespace::");
    assert_eq!(doc.string("count(/r/x)").unwrap(), "3");
    assert_eq!(doc.string("/r/x[2]").unwrap(), "1");
    assert_eq!(doc.string("namespace-uri(/r)").unwrap(), "");
    assert_eq!(check_query("/r/sum"), None);
    assert_eq!(check_query("/r/name"), None);
    assert_eq!(check_query("/r/namespace"), None);
    let chars: Vec<char> = "a'sum('sum(".chars().collect();
    assert!(has_unquoted(&chars, "sum("));
    assert!(!has_unquoted(&chars, "um('"));
    assert!(has_unquoted(&chars, "a's"));
    assert!(!has_unquoted(&"'sum('".chars().collect(), "sum("));
    assert!(!has_unquoted(&"sum".chars().collect(), "sum("));
    assert!(has_unquoted(&"sum".chars().collect(), ""));
    assert!(!has_unquoted(&Vec::new(), ""));
}

#[test]
fn a_failing_query_is_a_query_error() {
    let doc = XmlDocument::parse("<r><x><a/></x><x><b/></x></r>").unwrap();
    for query in ["/r/x[foo()]", "/r/x/*[(self::a and foo()) or (self::b and bar())]", "/r/", "$v", "]", "count()"] {
        assert!(matches!(doc.xpath(query), Err(Error::XPath(_))), "{}", query);
        assert!(matches!(doc.select(query), Err(Error::XPath(_))), "{}", query);
    }
    match doc.xpath("") {
        Err(Error::XPath(m)) => assert_eq!(m, "Empty XPath"),
        other => panic!("unexpected {:?}", other),
    }
}
