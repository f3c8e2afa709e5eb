//! Transport configuration, request assembly and the decoding of
//! responses.

use crate::client::auth::AuthInfo;
use crate::error::{Error, Result};
use crate::number::{decimal_text, format_u64};
use crate::parser::bbcode::starts_with_str;
use crate::parser::xml::{
    check_nga_error, entry_views, is_well_formed, server_error, xml_parse_failure,
};
use crate::text::{chars_of, has_prefix_at, str_eq};
use core::time::Duration;
use vstd::prelude::*;

verus! {

/// Default API base URL.
pub const DEFAULT_BASE_URL: &'static str = "https://nga.178.com/";

/// User agent of the iOS client.
pub const USER_AGENT_APPLE: &'static str = "NGA_skull/7.3.1(iPhone17,1;iOS 26.0)";

/// User agent of the Android client.
pub const USER_AGENT_ANDROID: &'static str = "Nga_Official/80024(Android12)";

/// User agent of a desktop browser.
pub const USER_AGENT_DESKTOP: &'static str =
    "Mozilla/5.0 (Macintosh; Intel Mac OS X 10_15_7) AppleWebKit/537.36 (KHTML, like Gecko) Chrome/101.0.4951.64 Safari/537.36";

/// User agent of the Windows Phone client.
pub const USER_AGENT_WINDOWS_PHONE: &'static str = "NGA_WP_JW/(;WINDOWS)";

/// The span of time of `secs` whole seconds, as
/// `core::time::Duration::from_secs` makes it.
pub uninterp spec fn seconds(secs: u64) -> Duration;

/// `Duration::from_secs` makes the span of that many whole seconds.
pub assume_specification[ Duration::from_secs ](secs: u64) -> (r: Duration)
    ensures
        r == seconds(secs),
;

/// A copy of a `Duration` is the same span.
pub assume_specification[ <Duration as Clone>::clone ](d: &Duration) -> (r: Duration)
    ensures
        r == *d,
;

/// Device type for requests.
#[derive(Debug, Clone, Copy, PartialEq, Eq, Structural)]
pub enum Device {
    Apple,
    Android,
    Desktop,
    WindowsPhone,
}

impl Default for Device {
    fn default() -> (r: Self)
        ensures
            r == Device::Apple,
    {
        Device::Apple
    }
}

impl Device {
    /// The user agent that the device presents.
    pub open spec fn agent(&self) -> Seq<char> {
        match self {
            Device::Apple => USER_AGENT_APPLE@,
            Device::Android => USER_AGENT_ANDROID@,
            Device::Desktop => USER_AGENT_DESKTOP@,
            Device::WindowsPhone => USER_AGENT_WINDOWS_PHONE@,
        }
    }

    /// Get the user agent string for this device.
    pub fn user_agent(&self) -> (r: &'static str)
        ensures
            r@ == self.agent(),
    {
        match self {
            Device::Apple => USER_AGENT_APPLE,
            Device::Android => USER_AGENT_ANDROID,
            Device::Desktop => USER_AGENT_DESKTOP,
            Device::WindowsPhone => USER_AGENT_WINDOWS_PHONE,
        }
    }
}

/// HTTP client configuration.
#[derive(Debug, Clone)]
pub struct HttpConfig {
    /// Base URL for API requests.
    pub base_url: String,
    /// Connection timeout.
    pub connect_timeout: Duration,
    /// Read timeout.
    pub read_timeout: Duration,
    /// Device type for User-Agent.
    pub device: Device,
    /// Custom user agent.
    pub custom_user_agent: Option<String>,
}

impl Default for HttpConfig {
    fn default() -> (r: Self)
        ensures
            r.base_url@ == DEFAULT_BASE_URL@,
            r.connect_timeout == seconds(5),
            r.read_timeout == seconds(20),
            r.device == Device::Apple,
            r.custom_user_agent is None,
    {
        HttpConfig {
            base_url: DEFAULT_BASE_URL.to_owned(),
            connect_timeout: Duration::from_secs(5),
            read_timeout: Duration::from_secs(20),
            device: Device::Apple,
            custom_user_agent: None,
        }
    }
}

/// The absolute form of a URL as `url::Url::parse` gives it, or the
/// message of the error with which it rejects the text.
pub uninterp spec fn absolute_url(input: Seq<char>) -> std::result::Result<Seq<char>, Seq<char>>;

/// The URL that `url::Url::join` resolves the reference `path` to against
/// the base that `url::Url::parse` reads from `base`, or the message of
/// the error with which either fails.
pub uninterp spec fn joined_url(base: Seq<char>, path: Seq<char>) -> std::result::Result<
    Seq<char>,
    Seq<char>,
>;

/// Parses an absolute URL (`url::Url::parse`) and gives it back in its
/// normal form, or gives the error's message.
#[verifier::external_body]
pub(crate) fn parse_url(input: &str) -> (r: std::result::Result<String, String>)
    ensures
        match r {
            Ok(u) => absolute_url(input@) == Ok::<Seq<char>, Seq<char>>(u@),
            Err(e) => absolute_url(input@) == Err::<Seq<char>, Seq<char>>(e@),
        },
{
    url::Url::parse(input).map(String::from).map_err(|e| e.to_string())
}

/// Resolves a reference against a base URL (`url::Url::parse` on the base,
/// then `url::Url::join`), or gives the error's message.
#[verifier::external_body]
pub(crate) fn join_url(base: &str, path: &str) -> (r: std::result::Result<String, String>)
    ensures
        match r {
            Ok(u) => joined_url(base@, path@) == Ok::<Seq<char>, Seq<char>>(u@),
            Err(e) => joined_url(base@, path@) == Err::<Seq<char>, Seq<char>>(e@),
        },
{
    url::Url::parse(base).and_then(|b| b.join(path)).map(String::from).map_err(|e| e.to_string())
}

/// Whether an endpoint is given as an absolute URL.
pub open spec fn is_absolute(api: Seq<char>) -> bool {
    has_prefix_at(api, 0, "http://"@) || has_prefix_at(api, 0, "https://"@)
}

/// The URL of an endpoint: an absolute one as it is, a relative path
/// resolved against the base URL.
pub open spec fn resolved_url(base: Seq<char>, api: Seq<char>) -> std::result::Result<
    Seq<char>,
    Seq<char>,
> {
    if is_absolute(api) {
        absolute_url(api)
    } else {
        joined_url(base, api)
    }
}

impl HttpConfig {
    /// The user agent for an endpoint: the custom one if there is one; else
    /// that of the Android client for `read.php`, which asks for it; else
    /// that of the configured device.
    pub open spec fn agent_for(&self, api: Seq<char>) -> Seq<char> {
        match self.custom_user_agent {
            Some(ua) => ua@,
            None => if api == "read.php"@ {
                USER_AGENT_ANDROID@
            } else {
                self.device.agent()
            },
        }
    }

    /// Get the user agent to use for a specific API endpoint.
    pub fn user_agent_for(&self, api: &str) -> (r: &str)
        ensures
            r@ == self.agent_for(api@),
    {
        match &self.custom_user_agent {
            Some(ua) => ua.as_str(),
            None => {
                if str_eq(api, "read.php") {
                    USER_AGENT_ANDROID
                } else {
                    self.device.user_agent()
                }
            },
        }
    }

    /// Resolve an API path to a full URL.
    pub fn resolve_url(&self, api: &str) -> (r: Result<String>)
        ensures
            match r {
                Ok(u) => resolved_url(self.base_url@, api@) == Ok::<Seq<char>, Seq<char>>(u@),
                Err(Error::Url(m)) => resolved_url(self.base_url@, api@) == Err::<
                    Seq<char>,
                    Seq<char>,
                >(m@),
                Err(_) => false,
            },
    {
        let v = chars_of(api);
        let resolved = if starts_with_str(&v, 0, "http://") || starts_with_str(&v, 0, "https://") {
            parse_url(api)
        } else {
            join_url(self.base_url.as_str(), api)
        };
        match resolved {
            Ok(u) => Ok(u),
            Err(m) => Err(Error::Url(m)),
        }
    }
}

/// Query parameter strategies for the response format.
#[derive(Debug, Clone, Copy, PartialEq, Eq, Structural)]
pub enum ResponseFormat {
    /// XML format: `lite=xml`
    Xml,
    /// Compact XML: `__output=10`
    CompactXml,
    /// JSON format: `__output=8`
    Json,
}

impl ResponseFormat {
    /// The query parameter that asks for the format.
    pub open spec fn param(&self) -> (Seq<char>, Seq<char>) {
        match self {
            ResponseFormat::Xml => ("lite"@, "xml"@),
            ResponseFormat::CompactXml => ("__output"@, "10"@),
            ResponseFormat::Json => ("__output"@, "8"@),
        }
    }

    /// Get the query parameter for this format.
    pub fn query_param(&self) -> (r: (&'static str, &'static str))
        ensures
            (r.0@, r.1@) == self.param(),
    {
        match self {
            ResponseFormat::Xml => ("lite", "xml"),
            ResponseFormat::CompactXml => ("__output", "10"),
            ResponseFormat::Json => ("__output", "8"),
        }
    }
}

pub type Params = Seq<(Seq<char>, Seq<char>)>;

/// The parameters with a value, in order.
pub open spec fn with_values(params: Params) -> Params
    decreases params.len(),
{
    if params.len() == 0 {
        Seq::empty()
    } else if params.last().1.len() > 0 {
        with_values(params.drop_last()).push(params.last())
    } else {
        with_values(params.drop_last())
    }
}

/// The query of a request as it is sent: the caller's parameters that have
/// a value, then the format parameter, then the input charset.
pub open spec fn full_query(query: Params, format: ResponseFormat) -> Params {
    with_values(query).push(format.param()).push(("__inchst"@, "UTF8"@))
}

/// The form of a request as it is sent: the caller's fields, then the
/// access token and the user of the credentials. Both fields are always
/// there: without credentials they are empty.
pub open spec fn full_form(form: Params, auth: Option<(Seq<char>, Seq<char>)>) -> Params {
    match auth {
        Some((token, uid)) => form.push(("access_token"@, token)).push(("access_uid"@, uid)),
        None => form.push(("access_token"@, Seq::empty())).push(("access_uid"@, Seq::empty())),
    }
}

/// A key and a value as owned strings.
pub fn pair(key: &str, value: &str) -> (r: (String, String))
    ensures
        r.0@ == key@,
        r.1@ == value@,
{
    (key.to_owned(), value.to_owned())
}

/// Assembles the query of a request.
pub fn build_query(query: &Vec<(String, String)>, format: ResponseFormat) -> (r: Vec<
    (String, String),
>)
    ensures
        entry_views(r@) == full_query(entry_views(query@), format),
{
    let ghost all = entry_views(query@);
    let mut out: Vec<(String, String)> = Vec::new();
    let mut i: usize = 0;
    assert(all.subrange(0, 0) =~= Seq::<(Seq<char>, Seq<char>)>::empty());
    assert(entry_views(out@) =~= Seq::<(Seq<char>, Seq<char>)>::empty());
    while i < query.len()
        invariant
            i <= query.len(),
            all == entry_views(query@),
            entry_views(out@) == with_values(all.subrange(0, i as int)),
        decreases query.len() - i,
    {
        let ghost before = entry_views(out@);
        assert(all.subrange(0, i + 1).drop_last() =~= all.subrange(0, i as int));
        assert(all.subrange(0, i + 1).last() == (query@[i as int].0@, query@[i as int].1@));
        if !query[i].1.as_str().is_empty() {
            out.push(pair(query[i].0.as_str(), query[i].1.as_str()));
            assert(entry_views(out@) =~= before.push(all[i as int]));
        }
        i = i + 1;
    }
    assert(all.subrange(0, i as int) =~= all);
    let ghost kept = entry_views(out@);
    let (key, value) = format.query_param();
    out.push(pair(key, value));
    out.push(pair("__inchst", "UTF8"));
    assert(entry_views(out@) =~= kept.push(format.param()).push(("__inchst"@, "UTF8"@)));
    out
}

/// Assembles the form of a request.
pub fn build_form(form: &Vec<(String, String)>, auth: Option<&AuthInfo>) -> (r: Vec<
    (String, String),
>)
    ensures
        entry_views(r@) == full_form(
            entry_views(form@),
            match auth {
                Some(a) => Some((a.token@, a.uid@)),
                None => None,
            },
        ),
{
    let mut out: Vec<(String, String)> = Vec::new();
    let mut i: usize = 0;
    assert(entry_views(out@) =~= entry_views(form@).subrange(0, 0));
    while i < form.len()
        invariant
            i <= form.len(),
            entry_views(out@) == entry_views(form@).subrange(0, i as int),
        decreases form.len() - i,
    {
        let ghost prev = entry_views(out@);
        out.push(pair(form[i].0.as_str(), form[i].1.as_str()));
        assert(entry_views(out@) =~= prev.push(entry_views(form@)[i as int]));
        i = i + 1;
        assert(entry_views(out@) =~= entry_views(form@).subrange(0, i as int));
    }
    assert(entry_views(form@).subrange(0, i as int) =~= entry_views(form@));
    let ghost copied = entry_views(out@);
    proof {
        reveal_strlit("");
    }
    match auth {
        Some(a) => {
            out.push(pair("access_token", a.token.as_str()));
            out.push(pair("access_uid", a.uid.as_str()));
            assert(entry_views(out@) =~= copied.push(("access_token"@, a.token@)).push(
                ("access_uid"@, a.uid@),
            ));
        },
        None => {
            out.push(pair("access_token", ""));
            out.push(pair("access_uid", ""));
            assert(""@ =~= Seq::<char>::empty());
            assert(entry_views(out@) =~= copied.push(("access_token"@, Seq::empty())).push(
                ("access_uid"@, Seq::empty()),
            ));
        },
    }
    out
}

/// One HTTP request, ready to be sent: a POST to `url` with the query and
/// the form, the user agent in the headers `User-Agent` and
/// `X-User-Agent`, and the URL itself as the `Referer`.
#[derive(Debug, Clone)]
pub struct HttpRequest {
    pub url: String,
    pub user_agent: String,
    pub referer: String,
    pub query: Vec<(String, String)>,
    pub form: Vec<(String, String)>,
}

/// Whether `req` is the request for an endpoint under a configuration.
pub open spec fn is_request_for(
    req: HttpRequest,
    config: HttpConfig,
    api: Seq<char>,
    query: Params,
    form: Params,
    auth: Option<(Seq<char>, Seq<char>)>,
    format: ResponseFormat,
) -> bool {
    &&& resolved_url(config.base_url@, api) == Ok::<Seq<char>, Seq<char>>(req.url@)
    &&& req.user_agent@ == config.agent_for(api)
    &&& req.referer@ == req.url@
    &&& entry_views(req.query@) == full_query(query, format)
    &&& entry_views(req.form@) == full_form(form, auth)
}

/// Prepares the request for an endpoint. It fails only where the
/// endpoint's URL cannot be resolved.
pub fn prepare_request(
    config: &HttpConfig,
    api: &str,
    query: &Vec<(String, String)>,
    form: &Vec<(String, String)>,
    auth: Option<&AuthInfo>,
    format: ResponseFormat,
) -> (r: Result<HttpRequest>)
    ensures
        match r {
            Ok(req) => is_request_for(
                req,
                *config,
                api@,
                entry_views(query@),
                entry_views(form@),
                match auth {
                    Some(a) => Some((a.token@, a.uid@)),
                    None => None,
                },
                format,
            ),
            Err(Error::Url(m)) => resolved_url(config.base_url@, api@) == Err::<
                Seq<char>,
                Seq<char>,
            >(m@),
            Err(_) => false,
        },
{
    let url = match config.resolve_url(api) {
        Ok(u) => u,
        Err(e) => {
            return Err(e);
        },
    };
    Ok(
        HttpRequest {
            referer: url.clone(),
            url,
            user_agent: config.user_agent_for(api).to_owned(),
            query: build_query(query, format),
            form: build_form(form, auth),
        },
    )
}

/// The text that `encoding_rs::Encoding::decode` on `GB18030` gives for
/// the bytes: the bytes read in that encoding, malformed sequences
/// replaced, unless they start with a byte-order mark of UTF-8 or UTF-16,
/// which is taken off and has the rest read in that encoding instead.
pub uninterp spec fn gb18030_text(bytes: Seq<u8>) -> Seq<char>;

/// Decodes bytes as GB18030 (`encoding_rs::Encoding::decode` on
/// `GB18030`, which heeds a leading byte-order mark). Decoding never
/// fails: what cannot be decoded is replaced. The input must be short
/// enough for the decoder to size its buffer.
#[verifier::external_body]
pub(crate) fn decode_bytes(bytes: &[u8]) -> (r: String)
    requires
        bytes@.len() <= usize::MAX / 4,
    ensures
        r@ == gb18030_text(bytes@),
{
    encoding_rs::GB18030.decode(bytes).0.into_owned()
}

/// Decode bytes as GB18030.
pub fn decode_gb18030(bytes: &[u8]) -> (r: String)
    requires
        bytes@.len() <= usize::MAX / 4,
    ensures
        r@ == gb18030_text(bytes@),
{
    decode_bytes(bytes)
}

/// Whether an HTTP status reports success.
pub open spec fn is_success(status: u16) -> bool {
    200 <= status <= 299
}

/// Turns a response into text. A response without text and without a
/// successful status is the server's refusal: an error with the status as
/// its code and the status' reason phrase, `Unknown error` where it has
/// none.
pub fn response_text(status: u16, reason: Option<&str>, bytes: &[u8]) -> (r: Result<String>)
    requires
        bytes@.len() <= usize::MAX / 4,
    ensures
        match r {
            Ok(t) => t@ == gb18030_text(bytes@) && (t@.len() > 0 || is_success(status)),
            Err(Error::NGAApi { code, message }) => gb18030_text(bytes@).len() == 0
                && !is_success(status) && code@ == decimal_text(status as int) && message@
                == (match reason {
                Some(m) => m@,
                None => "Unknown error"@,
            }),
            Err(_) => false,
        },
{
    let text = decode_bytes(bytes);
    if text.as_str().is_empty() && !(200 <= status && status <= 299) {
        let message = match reason {
            Some(m) => m,
            None => "Unknown error",
        };
        return Err(Error::nga(format_u64(status as u64).as_str(), message));
    }
    Ok(text)
}

/// Whether a response body can be used: it is not empty and is well-formed
/// XML.
pub open spec fn is_usable(text: Seq<char>) -> bool {
    text.len() > 0 && xml_parse_failure(text) is None
}

/// Tests whether a response body can be used.
pub fn usable(text: &str) -> (r: bool)
    ensures
        r == is_usable(text@),
{
    !text.is_empty() && is_well_formed(text)
}

/// One attempt of the format negotiation.
#[derive(Debug, Clone, Copy, PartialEq, Eq, Structural)]
pub enum Attempt {
    /// Verbose XML, with the credentials if there are any.
    Verbose,
    /// Compact XML, with the credentials if there are any.
    Compact,
    /// Verbose XML without credentials: some failures come only with them.
    VerboseBare,
}

impl Attempt {
    /// The response format that the attempt asks for.
    pub open spec fn wanted(&self) -> ResponseFormat {
        match self {
            Attempt::Compact => ResponseFormat::CompactXml,
            _ => ResponseFormat::Xml,
        }
    }

    /// The response format that the attempt asks for.
    pub fn format(&self) -> (r: ResponseFormat)
        ensures
            r == self.wanted(),
    {
        match self {
            Attempt::Compact => ResponseFormat::CompactXml,
            _ => ResponseFormat::Xml,
        }
    }

    /// Whether the attempt carries the credentials, where there are any.
    pub fn sends_auth(&self) -> (r: bool)
        ensures
            r == !(self is VerboseBare),
    {
        match self {
            Attempt::VerboseBare => false,
            _ => true,
        }
    }

    /// The attempt that follows this one when its response cannot be used.
    pub open spec fn following(&self, has_auth: bool) -> Option<Attempt> {
        match self {
            Attempt::Verbose => Some(Attempt::Compact),
            Attempt::Compact => if has_auth {
                Some(Attempt::VerboseBare)
            } else {
                None
            },
            Attempt::VerboseBare => None,
        }
    }
}

/// What the negotiation does next.
#[derive(Debug)]
pub enum Negotiation {
    /// Send the request again as this attempt.
    Retry(Attempt),
    /// The negotiation is over: this is the response.
    Done(String),
    /// The negotiation is over without a response: the server reported an
    /// error, or every attempt that applies gave a body that cannot be
    /// used.
    Failed(Error),
}

/// The attempt that a negotiation starts with.
pub fn first_attempt() -> (r: Attempt)
    ensures
        r == Attempt::Verbose,
{
    Attempt::Verbose
}

/// The message of the structural error that ends a failed negotiation.
pub open spec fn exhausted_message() -> Seq<char> {
    "All retry attempts returned malformed XML"@
}

/// Decides what follows the response `text` to the attempt `attempt`.
/// The text is first scanned for the server's inline error: a response
/// that reports one ends the negotiation with that error, whatever the
/// attempt and whether or not the body is well-formed, for an error that
/// the server reports is never answered by another request. Otherwise a
/// usable response ends the negotiation; else the verbose attempt is
/// followed by the compact one, and that, where the request carried
/// credentials, by a verbose one without them. After the last attempt the
/// negotiation has failed.
pub fn after_response(attempt: Attempt, has_auth: bool, text: String) -> (r: Negotiation)
    ensures
        match server_error(text@) {
            Some((c, m)) => r matches Negotiation::Failed(Error::NGAApi { code, message })
                && code@ == c && message@ == m,
            None => match r {
                Negotiation::Done(t) => is_usable(text@) && t == text,
                Negotiation::Retry(next) => !is_usable(text@) && attempt.following(has_auth)
                    == Some(next),
                Negotiation::Failed(e) => !is_usable(text@) && attempt.following(has_auth)
                    is None && (e matches Error::Xml(m) && m@ == exhausted_message()),
            },
        },
{
    match check_nga_error(text.as_str()) {
        Ok(_) => {},
        Err(e) => {
            return Negotiation::Failed(e);
        },
    }
    if usable(text.as_str()) {
        return Negotiation::Done(text);
    }
    match attempt {
        Attempt::Verbose => Negotiation::Retry(Attempt::Compact),
        Attempt::Compact => {
            if has_auth {
                Negotiation::Retry(Attempt::VerboseBare)
            } else {
                Negotiation::Failed(
                    Error::Xml("All retry attempts returned malformed XML".to_owned()),
                )
            }
        },
        Attempt::VerboseBare => Negotiation::Failed(
            Error::Xml("All retry attempts returned malformed XML".to_owned()),
        ),
    }
}

/// How a negotiation ends.
pub enum Ending {
    /// With this response.
    Accepted(Seq<char>),
    /// With the error that the server reported in a response.
    Refused { code: Seq<char>, message: Seq<char> },
    /// Without a usable response.
    Exhausted,
}

/// How a negotiation ends when the `i`-th request is answered by
/// `replies[i]`, from the attempt `attempt` on. The first reply that
/// reports a server error ends it with that error; the first usable reply
/// ends it with that reply; it is exhausted when the attempts or the
/// replies run out first.
pub open spec fn negotiated(
    replies: Seq<Seq<char>>,
    i: int,
    attempt: Attempt,
    has_auth: bool,
) -> Ending
    decreases replies.len() - i,
{
    if i < 0 || i >= replies.len() {
        Ending::Exhausted
    } else {
        match server_error(replies[i]) {
            Some((code, message)) => Ending::Refused { code, message },
            None => if is_usable(replies[i]) {
                Ending::Accepted(replies[i])
            } else {
                match attempt.following(has_auth) {
                    Some(next) => negotiated(replies, i + 1, next, has_auth),
                    None => Ending::Exhausted,
                }
            },
        }
    }
}

/// Runs the negotiation over replies known in advance: the `i`-th request
/// is answered by `replies[i]`.
pub fn negotiate_over(replies: &Vec<String>, has_auth: bool) -> (r: Result<String>)
    ensures
        match r {
            Ok(t) => negotiated(crate::text::strs_of(replies@), 0, Attempt::Verbose, has_auth)
                == Ending::Accepted(t@),
            Err(Error::NGAApi { code, message }) => negotiated(
                crate::text::strs_of(replies@),
                0,
                Attempt::Verbose,
                has_auth,
            ) == (Ending::Refused { code: code@, message: message@ }),
            Err(Error::Xml(m)) => negotiated(
                crate::text::strs_of(replies@),
                0,
                Attempt::Verbose,
                has_auth,
            ) is Exhausted && m@ == exhausted_message(),
            Err(_) => false,
        },
{
    let ghost all = crate::text::strs_of(replies@);
    let mut attempt = Attempt::Verbose;
    let mut i: usize = 0;
    while i < replies.len()
        invariant
            i <= replies.len(),
            all == crate::text::strs_of(replies@),
            negotiated(all, 0, Attempt::Verbose, has_auth) == negotiated(
                all,
                i as int,
                attempt,
                has_auth,
            ),
        decreases replies.len() - i,
    {
        assert(all[i as int] == replies@[i as int]@);
        match after_response(attempt, has_auth, replies[i].clone()) {
            Negotiation::Done(t) => {
                return Ok(t);
            },
            Negotiation::Retry(next) => {
                attempt = next;
            },
            Negotiation::Failed(e) => {
                return Err(e);
            },
        }
        i = i + 1;
    }
    Err(Error::Xml("All retry attempts returned malformed XML".to_owned()))
}

/// Format negotiation recovers from one bad body: when the first response
/// reports no error and cannot be used, and the second reports none and
/// can, the negotiation ends with the second response, whether or not the
/// request carries credentials.
pub proof fn lemma_second_reply_wins(replies: Seq<Seq<char>>, has_auth: bool)
    requires
        replies.len() >= 2,
        server_error(replies[0]) is None,
        !is_usable(replies[0]),
        server_error(replies[1]) is None,
        is_usable(replies[1]),
    ensures
        negotiated(replies, 0, Attempt::Verbose, has_auth) == Ending::Accepted(replies[1]),
{
    assert(negotiated(replies, 1, Attempt::Compact, has_auth) == Ending::Accepted(replies[1]));
}

/// An error that the server reports is never retried: when the first
/// response reports one, the negotiation ends with it after that one
/// request, whatever else the body holds and whatever would be answered
/// to further requests.
pub proof fn lemma_server_error_ends(replies: Seq<Seq<char>>, has_auth: bool)
    requires
        replies.len() >= 1,
        server_error(replies[0]) is Some,
    ensures
        server_error(replies[0]) matches Some((code, message)) && negotiated(
            replies,
            0,
            Attempt::Verbose,
            has_auth,
        ) == (Ending::Refused { code, message }),
        negotiated(replies, 0, Attempt::Verbose, has_auth) == negotiated(
            replies.subrange(0, 1),
            0,
            Attempt::Verbose,
            has_auth,
        ),
{
    assert(replies.subrange(0, 1)[0] == replies[0]);
}

/// A negotiation sends at most three requests, and at most two without
/// credentials: further replies change nothing.
pub proof fn lemma_attempts_bounded(replies: Seq<Seq<char>>, has_auth: bool)
    requires
        replies.len() >= 3,
    ensures
        negotiated(replies, 0, Attempt::Verbose, has_auth) == negotiated(
            replies.subrange(0, 3),
            0,
            Attempt::Verbose,
            has_auth,
        ),
        !has_auth ==> negotiated(replies, 0, Attempt::Verbose, has_auth) == negotiated(
            replies.subrange(0, 2),
            0,
            Attempt::Verbose,
            has_auth,
        ),
{
    let three = replies.subrange(0, 3);
    let two = replies.subrange(0, 2);
    reveal_with_fuel(negotiated, 4);
    assert(three[0] == replies[0] && three[1] == replies[1] && three[2] == replies[2]);
    assert(two[0] == replies[0] && two[1] == replies[1]);
}

} // verus!
