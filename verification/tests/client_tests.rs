use rnga::client::http::{
    after_response, build_form, build_query, decode_gb18030, first_attempt, negotiate_over,
    prepare_request, response_text, usable, Attempt, Negotiation,
};
use rnga::client::{AuthInfo, Device, HttpConfig, NGAClient, NGAClientBuilder, ResponseFormat};
use rnga::error::Error;
use std::time::Duration;

#[test]
fn test_resolve_url() {
    let config = HttpConfig::default();

    let url = config.resolve_url("thread.php").unwrap();
    assert!(url.as_str().contains("nga.178.com"));
    assert!(url.as_str().ends_with("thread.php"));
}

#[test]
fn test_error_display() {
    let e = Error::nga("1", "test message");
    assert_eq!(format!("{}", e.to_string()), "NGA API error [1]: test message");
}

#[test]
fn test_retryable() {
    assert!(Error::nga("-4", "blocked").is_retryable());
    assert!(!Error::nga("1", "not blocked").is_retryable());
}

#[test]
fn test_client_builder() {
    let client = NGAClient::builder().build();
    assert!(client.is_ok());

    let client = client.unwrap();
    assert!(!client.is_authenticated());
}

#[test]
fn test_client_with_auth() {
    let client = NGAClient::builder()
        .auth("test_token", "12345")
        .build()
        .unwrap();

    assert!(client.is_authenticated());
    assert_eq!(client.current_uid(), Some("12345"));
}

#[test]
fn error_kinds() {
    assert!(Error::Network("down".into()).is_retryable());
    assert!(!Error::Network("down".into()).is_auth_error());
    assert!(Error::AuthRequired.is_auth_error());
    assert!(!Error::AuthRequired.is_retryable());
    assert!(Error::nga("2", "login").is_auth_error());
    assert!(!Error::nga("-4", "blocked").is_auth_error());
    assert!(!Error::nga("-40", "x").is_retryable());
    assert!(!Error::Xml("x".into()).is_retryable());
    assert!(matches!(Error::parse("p"), Error::Parse(ref m) if m == "p"));
    assert!(matches!(Error::missing("f"), Error::MissingField(ref m) if m == "f"));
    for (error, text) in [
        (Error::Network("n".into()), "Network error: n"),
        (Error::Parse("p".into()), "Parse error: p"),
        (Error::AuthRequired, "Authentication required"),
        (Error::MissingField("f".into()), "Missing field: f"),
        (Error::InvalidArgument("a".into()), "Invalid argument: a"),
        (Error::Cache("c".into()), "Cache error: c"),
        (Error::Internal("i".into()), "Internal error: i"),
        (Error::Json("j".into()), "JSON error: j"),
        (Error::Url("u".into()), "URL error: u"),
        (Error::Xml("x".into()), "XML error: x"),
        (Error::XPath("q".into()), "XPath error: q"),
        (Error::NotImplemented("n".into()), "Not implemented: n"),
        (Error::nga("", ""), "NGA API error []: "),
    ] {
        assert_eq!(error.to_string(), text);
    }
}

#[test]
fn configuration_and_builder() {
    let config = HttpConfig::default();
    assert_eq!(config.base_url, "https://nga.178.com/");
    assert_eq!(config.connect_timeout, Duration::from_secs(5));
    assert_eq!(config.read_timeout, Duration::from_secs(20));
    assert_eq!(config.device, Device::Apple);
    assert!(config.custom_user_agent.is_none());
    assert_eq!(config.user_agent_for("thread.php"), "NGA_skull/7.3.1(iPhone17,1;iOS 26.0)");
    assert_eq!(config.user_agent_for("read.php"), "Nga_Official/80024(Android12)");
    assert_eq!(Device::Android.user_agent(), "Nga_Official/80024(Android12)");
    assert_eq!(Device::WindowsPhone.user_agent(), "NGA_WP_JW/(;WINDOWS)");
    assert!(Device::Desktop.user_agent().starts_with("Mozilla/5.0"));
    assert_eq!(Device::default(), Device::Apple);

    let builder = NGAClientBuilder::new()
        .base_url("http://localhost:1/api/")
        .device(Device::Desktop)
        .user_agent("custom")
        .connect_timeout(Duration::from_millis(10))
        .read_timeout(Duration::from_secs(1))
        .with_auth(AuthInfo::new("t", "u"));
    assert_eq!(builder.http_config.base_url, "http://localhost:1/api/");
    assert_eq!(builder.http_config.device, Device::Desktop);
    assert_eq!(builder.http_config.connect_timeout, Duration::from_millis(10));
    assert_eq!(builder.http_config.read_timeout, Duration::from_secs(1));
    assert_eq!(builder.http_config.user_agent_for("read.php"), "custom");
    let client = builder.build().unwrap();
    assert_eq!(client.auth_info().map(|a| a.token.as_str()), Some("t"));
    assert_eq!(client.inner.auth_tuple().unwrap(), ("t", "u"));
    assert_eq!(client.inner.auth_tuple_opt(), Some(("t", "u")));
    assert_eq!(client.inner.require_auth().unwrap().uid, "u");
    let shared = client.clone();
    assert_eq!(shared.current_uid(), Some("u"));

    let bare = NGAClient::builder().build().unwrap();
    assert!(bare.auth_info().is_none());
    assert!(bare.current_uid().is_none());
    assert!(matches!(bare.inner.require_auth(), Err(Error::AuthRequired)));
    assert!(matches!(bare.inner.auth_tuple(), Err(Error::AuthRequired)));
    assert!(bare.inner.auth_tuple_opt().is_none());
    assert!(bare.inner.cache.is_none());
}

#[test]
fn url_resolution() {
    let config = HttpConfig::default();
    assert_eq!(config.resolve_url("thread.php").unwrap(), "https://nga.178.com/thread.php");
    assert_eq!(config.resolve_url("/a/b.php").unwrap(), "https://nga.178.com/a/b.php");
    assert_eq!(config.resolve_url("http://other.example/x").unwrap(), "http://other.example/x");
    assert_eq!(config.resolve_url("https://other.example").unwrap(), "https://other.example/");
    assert!(matches!(config.resolve_url("http://"), Err(Error::Url(ref m)) if !m.is_empty()));
    let nested = HttpConfig { base_url: "https://h.example/dir/".to_string(), ..HttpConfig::default() };
    assert_eq!(nested.resolve_url("x.php").unwrap(), "https://h.example/dir/x.php");
    let broken = HttpConfig { base_url: "not a url".to_string(), ..HttpConfig::default() };
    assert!(matches!(broken.resolve_url("x.php"), Err(Error::Url(_))));
    assert_eq!(broken.resolve_url("http://ok.example/").unwrap(), "http://ok.example/");
}

fn owned(list: &[(&str, &str)]) -> Vec<(String, String)> {
    list.iter().map(|(k, v)| (k.to_string(), v.to_string())).collect()
}

#[test]
fn request_assembly() {
    assert_eq!(ResponseFormat::Xml.query_param(), ("lite", "xml"));
    assert_eq!(ResponseFormat::CompactXml.query_param(), ("__output", "10"));
    assert_eq!(ResponseFormat::Json.query_param(), ("__output", "8"));
    let query = owned(&[("a", "1"), ("empty", ""), ("b", "2"), ("", "named by nothing")]);
    assert_eq!(
        build_query(&query, ResponseFormat::Xml),
        owned(&[("a", "1"), ("b", "2"), ("", "named by nothing"), ("lite", "xml"), ("__inchst", "UTF8")])
    );
    assert_eq!(
        build_query(&Vec::new(), ResponseFormat::CompactXml),
        owned(&[("__output", "10"), ("__inchst", "UTF8")])
    );
    let form = owned(&[("x", ""), ("y", "z")]);
    let auth = AuthInfo::new("tok", "9");
    assert_eq!(
        build_form(&form, Some(&auth)),
        owned(&[("x", ""), ("y", "z"), ("access_token", "tok"), ("access_uid", "9")])
    );
    assert_eq!(
        build_form(&form, None),
        owned(&[("x", ""), ("y", "z"), ("access_token", ""), ("access_uid", "")])
    );
    let config = HttpConfig::default();
    let request = prepare_request(&config, "read.php", &query, &form, None, ResponseFormat::CompactXml).unwrap();
    assert_eq!(request.url, "https://nga.178.com/read.php");
    assert_eq!(request.referer, request.url);
    assert_eq!(request.user_agent, "Nga_Official/80024(Android12)");
    assert_eq!(request.query.last().unwrap(), &("__inchst".to_string(), "UTF8".to_string()));
    assert_eq!(request.form.len(), 4);
    assert!(matches!(
        prepare_request(&config, "http://", &query, &form, None, ResponseFormat::Xml),
        Err(Error::Url(_))
    ));
}

#[test]
fn responses_are_decoded_from_the_legacy_encoding() {
    assert_eq!(decode_gb18030(b"plain"), "plain");
    assert_eq!(decode_gb18030(&[0xC4, 0xE3, 0xBA, 0xC3]), "你好");
    assert_eq!(decode_gb18030(&[0x61, 0xFF, 0x62]), "a\u{FFFD}b");
    assert_eq!(decode_gb18030(&[]), "");
    assert_eq!(response_text(200, Some("OK"), &[0xC4, 0xE3]).unwrap(), "你");
    assert_eq!(response_text(200, Some("OK"), &[]).unwrap(), "");
    assert_eq!(response_text(299, None, &[]).unwrap(), "");
    assert_eq!(response_text(500, Some("Internal Server Error"), b"body").unwrap(), "body");
    match response_text(503, Some("Service Unavailable"), &[]) {
        Err(Error::NGAApi { code, message }) => {
            assert_eq!(code, "503");
            assert_eq!(message, "Service Unavailable");
        }
        other => panic!("expected the status as an error, got {:?}", other),
    }
    match response_text(199, None, &[]) {
        Err(Error::NGAApi { code, message }) => {
            assert_eq!(code, "199");
            assert_eq!(message, "Unknown error");
        }
        other => panic!("expected the status as an error, got {:?}", other),
    }
    assert!(response_text(300, None, &[]).is_err());
}

fn replies(list: &[&str]) -> Vec<String> {
    list.iter().map(|s| s.to_string()).collect()
}

#[test]
fn second_response_is_accepted() {
    let result = negotiate_over(&replies(&["<broken", "<ok/>"]), false);
    assert_eq!(result.unwrap(), "<ok/>");
    let result = negotiate_over(&replies(&["<broken", "<ok/>"]), true);
    assert_eq!(result.unwrap(), "<ok/>");
}

#[test]
fn format_negotiation() {
    assert!(usable("<a/>"));
    assert!(!usable(""));
    assert!(!usable("<a>"));
    assert_eq!(first_attempt(), Attempt::Verbose);
    assert_eq!(Attempt::Verbose.format(), ResponseFormat::Xml);
    assert_eq!(Attempt::Compact.format(), ResponseFormat::CompactXml);
    assert_eq!(Attempt::VerboseBare.format(), ResponseFormat::Xml);
    assert!(Attempt::Verbose.sends_auth() && Attempt::Compact.sends_auth());
    assert!(!Attempt::VerboseBare.sends_auth());
    assert!(matches!(after_response(Attempt::Verbose, false, "<a/>".into()), Negotiation::Done(ref t) if t == "<a/>"));
    assert!(matches!(after_response(Attempt::Verbose, false, "".into()), Negotiation::Retry(Attempt::Compact)));
    assert!(matches!(after_response(Attempt::Verbose, true, "x".into()), Negotiation::Retry(Attempt::Compact)));
    assert!(matches!(after_response(Attempt::Compact, true, "".into()), Negotiation::Retry(Attempt::VerboseBare)));
    assert!(matches!(after_response(Attempt::Compact, true, "<a/>".into()), Negotiation::Done(_)));
    match after_response(Attempt::Compact, false, "".into()) {
        Negotiation::Failed(Error::Xml(m)) => assert_eq!(m, "All retry attempts returned malformed XML"),
        other => panic!("expected the negotiation to fail, got {:?}", other),
    }
    assert!(matches!(after_response(Attempt::VerboseBare, true, "<".into()), Negotiation::Failed(Error::Xml(_))));
    assert!(matches!(after_response(Attempt::VerboseBare, true, "<a/>".into()), Negotiation::Done(_)));

    assert_eq!(negotiate_over(&replies(&["<a/>", "<b/>"]), true).unwrap(), "<a/>");
    assert_eq!(negotiate_over(&replies(&["", "", "<c/>"]), true).unwrap(), "<c/>");
    assert!(matches!(negotiate_over(&replies(&["", "", "<c/>"]), false), Err(Error::Xml(_))));
    assert!(matches!(negotiate_over(&replies(&["", "", "", "<d/>"]), true), Err(Error::Xml(_))));
    assert!(matches!(negotiate_over(&replies(&[]), true), Err(Error::Xml(_))));
    assert!(matches!(negotiate_over(&replies(&["<a>"]), true), Err(Error::Xml(_))));
}

#[test]
fn a_server_error_ends_the_negotiation_at_once() {
    let malformed = r#"<root><__error code="15" message="a &amp; b"><open>"#;
    assert!(!usable(malformed));
    for attempt in [Attempt::Verbose, Attempt::Compact, Attempt::VerboseBare] {
        for has_auth in [false, true] {
            match after_response(attempt, has_auth, malformed.to_string()) {
                Negotiation::Failed(Error::NGAApi { code, message }) => {
                    assert_eq!(code, "15");
                    assert_eq!(message, "a & b");
                }
                other => panic!("expected the server's error, got {:?}", other),
            }
        }
    }
    let well_formed = r#"<root><error code="2" message="login"/></root>"#;
    assert!(usable(well_formed));
    assert!(matches!(
        after_response(Attempt::Verbose, true, well_formed.to_string()),
        Negotiation::Failed(Error::NGAApi { ref code, .. }) if code == "2"
    ));
    match negotiate_over(&replies(&[malformed, "<ok/>"]), true) {
        Err(Error::NGAApi { code, message }) => {
            assert_eq!((code.as_str(), message.as_str()), ("15", "a & b"));
        }
        other => panic!("expected the server's error, got {:?}", other),
    }
    match negotiate_over(&replies(&["<broken", malformed, "<ok/>"]), false) {
        Err(Error::NGAApi { code, .. }) => assert_eq!(code, "15"),
        other => panic!("expected the server's error, got {:?}", other),
    }
    match negotiate_over(&replies(&["", "__error", "<ok/>"]), true) {
        Err(Error::NGAApi { code, message }) => {
            assert_eq!((code.as_str(), message.as_str()), ("-1", "Error response received"));
        }
        other => panic!("expected the server's error, got {:?}", other),
    }
    assert_eq!(negotiate_over(&replies(&["<broken", "<ok/>", malformed]), true).unwrap(), "<ok/>");
}
