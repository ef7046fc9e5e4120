//! The requests that every FastStats service (metrics, error tracking,
//! feature flags) sends, and what is made of the responses.

use vstd::prelude::*;
use vstd::utf8::encode_utf8;

use crate::domain::sdk_info::{SdkInfo, SdkInfoView};
use crate::error::{Error, ErrorView};
use crate::json::{json_of_text, json_text, json_tree, payload_text, read_tree, tree_get};
use crate::text::{bytes_of, decimal, decimal_text, opt_str};
use crate::validated::token::Token;
use crate::value::{JsonValue, JsonView};

verus! {

/// The timeout of every FastStats HTTP request, in seconds.
pub const TIMEOUT: u64 = 3;

/// What `reqwest::Url::parse` makes of a text: the address in its normal
/// form, or the text of its error.
pub uninterp spec fn url_parse(s: Seq<char>) -> Result<Seq<char>, Seq<char>>;

/// What `reqwest::Url::join` makes of an address and a path relative to it,
/// or the text of its error.
pub uninterp spec fn url_join(base: Seq<char>, path: Seq<char>) -> Result<Seq<char>, Seq<char>>;

/// What `flate2::write::GzEncoder` makes of the bytes, or the text of its
/// error.
pub uninterp spec fn gzip(bytes: Seq<u8>) -> Result<Seq<u8>, Seq<char>>;

/// The text that `reqwest::StatusCode` gives to a status, with its reason.
pub uninterp spec fn status_text(code: u16) -> Seq<char>;

/// What `char::to_uppercase` makes of a character.
pub uninterp spec fn upper_case(c: char) -> Seq<char>;

/// `reqwest::Url::parse`. The address, or the error, depends on the text
/// alone.
#[verifier::external_body]
fn parse_url(s: &str) -> (r: Result<String, String>)
    ensures
        match r {
            Ok(url) => url_parse(s@) == Ok::<Seq<char>, Seq<char>>(url@),
            Err(e) => url_parse(s@) == Err::<Seq<char>, Seq<char>>(e@),
        },
{
    match reqwest::Url::parse(s) {
        Ok(url) => Ok(url.to_string()),
        Err(e) => Err(e.to_string()),
    }
}

/// `reqwest::Url::join`, on the address that the first text stands for. The
/// result, or the error, depends on the two texts alone.
#[verifier::external_body]
fn join_url(base: &str, path: &str) -> (r: Result<String, String>)
    ensures
        match r {
            Ok(url) => url_join(base@, path@) == Ok::<Seq<char>, Seq<char>>(url@),
            Err(e) => url_join(base@, path@) == Err::<Seq<char>, Seq<char>>(e@),
        },
{
    match reqwest::Url::parse(base).and_then(|url| url.join(path)) {
        Ok(url) => Ok(url.to_string()),
        Err(e) => Err(e.to_string()),
    }
}

/// `flate2::write::GzEncoder` at the default level, given all the bytes and
/// finished. Its output starts with the two bytes that mark a gzip stream,
/// and depends on the bytes alone.
#[verifier::external_body]
fn encode_gzip(bytes: &[u8]) -> (r: Result<Vec<u8>, String>)
    ensures
        match r {
            Ok(out) => gzip(bytes@) == Ok::<Seq<u8>, Seq<char>>(out@) && out@.len() >= 2 && out@[0]
                == 0x1f && out@[1] == 0x8b,
            Err(e) => gzip(bytes@) == Err::<Seq<u8>, Seq<char>>(e@),
        },
{
    let mut encoder = flate2::write::GzEncoder::new(Vec::new(), flate2::Compression::default());
    match std::io::Write::write_all(&mut encoder, bytes).and_then(|_| encoder.finish()) {
        Ok(out) => Ok(out),
        Err(e) => Err(e.to_string()),
    }
}

/// `reqwest::StatusCode`'s text, as `Display` gives it: the number and the
/// reason that goes with it. It depends on the number alone.
#[verifier::external_body]
fn format_status(code: u16) -> (s: String)
    requires
        100 <= code <= 999,
    ensures
        s@ == status_text(code),
{
    reqwest::StatusCode::from_u16(code).unwrap().to_string()
}

/// `char::to_uppercase`, as text. A small ASCII letter becomes the capital
/// one; another ASCII character stays as it is.
#[verifier::external_body]
fn to_upper(c: char) -> (s: String)
    ensures
        s@ == upper_case(c),
        'a' <= c <= 'z' ==> s@ == seq![((c as u8) - 32) as u8 as char],
        (c as u32) < 128 && !('a' <= c <= 'z') ==> s@ == seq![c],
{
    c.to_uppercase().to_string()
}

/// An address of a server, in its normal form.
#[derive(Debug)]
pub struct Url {
    address: String,
}

impl View for Url {
    type V = Seq<char>;

    closed spec fn view(&self) -> Seq<char> {
        self.address@
    }
}

impl Url {
    /// Reads an address. The error says what is wrong with it.
    pub fn parse(s: &str) -> (r: Result<Self, String>)
        ensures
            match r {
                Ok(url) => url_parse(s@) == Ok::<Seq<char>, Seq<char>>(url@),
                Err(e) => url_parse(s@) == Err::<Seq<char>, Seq<char>>(e@),
            },
    {
        match parse_url(s) {
            Ok(address) => Ok(Url { address }),
            Err(e) => Err(e),
        }
    }

    /// The address of a path on the same server.
    pub fn join(&self, path: &str) -> (r: Result<Self, String>)
        ensures
            match r {
                Ok(url) => url_join(self@, path@) == Ok::<Seq<char>, Seq<char>>(url@),
                Err(e) => url_join(self@, path@) == Err::<Seq<char>, Seq<char>>(e@),
            },
    {
        match join_url(self.address.as_str(), path) {
            Ok(address) => Ok(Url { address }),
            Err(e) => Err(e),
        }
    }

    /// The address as text.
    pub fn as_str(&self) -> (s: &str)
        ensures
            s@ == self@,
    {
        self.address.as_str()
    }
}

impl Clone for Url {
    fn clone(&self) -> (r: Self)
        ensures
            r@ == self@,
    {
        Url { address: self.address.clone() }
    }
}

/// The address of the server: the one that the environment names, if it is
/// an address, else the default one.
pub open spec fn resolved_url(
    env_var: Seq<char>,
    value: Option<Seq<char>>,
    default_url: Seq<char>,
) -> Result<Seq<char>, ErrorView> {
    if value is Some && url_parse(value->0) is Ok {
        Ok(url_parse(value->0)->Ok_0)
    } else {
        match url_parse(default_url) {
            Ok(url) => Ok(url),
            Err(reason) => Err(ErrorView::InvalidServerUrl { env_var, reason }),
        }
    }
}

/// Resolves the address of a server: the value of the environment variable
/// `env_var`, where it is set to an address, else the default.
pub fn resolve_server_url(env_var: &'static str, value: Option<&str>, default_url: &str) -> (r:
    Result<Url, Error>)
    ensures
        match r {
            Ok(url) => resolved_url(env_var@, opt_str(value), default_url@) == Ok::<
                Seq<char>,
                ErrorView,
            >(url@),
            Err(e) => resolved_url(env_var@, opt_str(value), default_url@) == Err::<
                Seq<char>,
                ErrorView,
            >(e@),
        },
{
    match value {
        Some(address) => match Url::parse(address) {
            Ok(url) => {
                return Ok(url);
            },
            Err(_) => {},
        },
        None => {},
    }
    match Url::parse(default_url) {
        Ok(url) => Ok(url),
        Err(reason) => Err(Error::InvalidServerUrl { env_var, reason }),
    }
}

/// The address of a path on a server.
pub open spec fn joined_url(env_var: Seq<char>, base: Seq<char>, path: Seq<char>) -> Result<
    Seq<char>,
    ErrorView,
> {
    match url_join(base, path) {
        Ok(url) => Ok(url),
        Err(reason) => Err(ErrorView::InvalidServerUrl { env_var, reason }),
    }
}

/// The address of `path` on the server `base`, whose address the environment
/// variable `env_var` may set.
pub fn join_server_url(env_var: &'static str, base: &Url, path: &str) -> (r: Result<Url, Error>)
    ensures
        match r {
            Ok(url) => joined_url(env_var@, base@, path@) == Ok::<Seq<char>, ErrorView>(url@),
            Err(e) => joined_url(env_var@, base@, path@) == Err::<Seq<char>, ErrorView>(e@),
        },
{
    match base.join(path) {
        Ok(url) => Ok(url),
        Err(reason) => Err(Error::InvalidServerUrl { env_var, reason }),
    }
}

/// An HTTP status code: a number of three digits.
#[derive(Clone, Copy, Debug, PartialEq, Eq, Structural)]
pub struct StatusCode {
    code: u16,
}

impl View for StatusCode {
    type V = u16;

    closed spec fn view(&self) -> u16 {
        self.code
    }
}

impl StatusCode {
    #[verifier::type_invariant]
    spec fn well_formed(self) -> bool {
        100 <= self.code <= 999
    }

    /// The status with this number, if it has three digits.
    pub fn from_u16(code: u16) -> (r: Option<Self>)
        ensures
            match r {
                Some(status) => 100 <= code <= 999 && status@ == code,
                None => !(100 <= code <= 999),
            },
    {
        if 100 <= code && code <= 999 {
            Some(StatusCode { code })
        } else {
            None
        }
    }

    /// The number of the status.
    pub fn as_u16(&self) -> (code: u16)
        ensures
            code == self@,
            100 <= code <= 999,
    {
        proof {
            use_type_invariant(self);
        }
        self.code
    }

    /// Whether the status is one of success, from 200 to 299.
    pub fn is_success(&self) -> (r: bool)
        ensures
            r == (200 <= self@ < 300),
    {
        200 <= self.code && self.code < 300
    }

    /// The number and its reason, as text.
    pub fn text(&self) -> (s: String)
        ensures
            s@ == status_text(self@),
    {
        proof {
            use_type_invariant(self);
        }
        format_status(self.code)
    }
}

/// What came back of a request that reached the server.
#[derive(Debug)]
pub struct SubmissionOutcome {
    /// The status that the server returned.
    pub status: StatusCode,
    /// The body of the response, if it could be read as text.
    pub body: Option<String>,
}

/// Whether the text is a JSON object with an entry `warnings`.
pub open spec fn holds_warnings(body: Seq<char>) -> bool {
    match json_of_text(body) {
        Ok(JsonView::Object(map)) => map.contains_key("warnings"@),
        _ => false,
    }
}

/// The body of a response; a missing one is empty.
pub open spec fn body_text(body: Option<String>) -> Seq<char> {
    match body {
        Some(s) => s@,
        None => Seq::empty(),
    }
}

impl SubmissionOutcome {
    /// Whether the server accepted the submission.
    pub fn is_successful(&self) -> (r: bool)
        ensures
            r == (200 <= self.status@ < 300),
    {
        self.status.is_success()
    }

    /// Whether the body is a JSON object with an entry `warnings`.
    pub fn has_warnings(&self) -> (r: bool)
        ensures
            r == (self.body is Some && holds_warnings(self.body->0@)),
    {
        match &self.body {
            Some(body) => match read_tree(body.as_str()) {
                Ok(tree) => tree_get(&tree, "warnings").is_some(),
                Err(_) => false,
            },
            None => false,
        }
    }

    /// The body as text; a missing one is empty.
    pub fn body_or_empty(&self) -> (s: &str)
        ensures
            s@ == body_text(self.body),
    {
        match &self.body {
            Some(s) => s.as_str(),
            None => {
                proof {
                    reveal_strlit("");
                    assert(""@ =~= Seq::<char>::empty());
                }
                ""
            },
        }
    }
}

impl Clone for SubmissionOutcome {
    fn clone(&self) -> (r: Self)
        ensures
            r == *self,
    {
        SubmissionOutcome {
            status: self.status,
            body: match &self.body {
                Some(s) => Some(s.clone()),
                None => None,
            },
        }
    }
}

/// How important a line of the log is.
#[derive(Clone, Copy, Debug, PartialEq, Eq, Structural)]
pub enum LogLevel {
    Debug,
    Warn,
    Error,
}

/// A line for the log.
#[derive(Debug)]
pub struct LogLine {
    pub level: LogLevel,
    pub message: String,
}

/// The text with its first character in upper case.
pub open spec fn capitalized(s: Seq<char>) -> Seq<char> {
    if s.len() == 0 {
        s
    } else {
        upper_case(s[0]) + s.skip(1)
    }
}

/// Capitalizes the first character of `value`.
pub fn capitalize(value: &str) -> (r: String)
    ensures
        r@ == capitalized(value@),
        value@.len() > 0 && 'a' <= value@[0] <= 'z' ==> r@ == value@.update(
            0,
            ((value@[0] as u8) - 32) as u8 as char,
        ),
        value@.len() > 0 && (value@[0] as u32) < 128 && !('a' <= value@[0] <= 'z') ==> r@ == value@,
{
    let len: usize = value.unicode_len();
    if len == 0 {
        let r = String::new();
        assert(r@ =~= value@);
        return r;
    }
    let mut r = to_upper(value.get_char(0));
    r.append(value.substring_char(1, len));
    proof {
        assert(value@.subrange(1, len as int) =~= value@.skip(1));
        if 'a' <= value@[0] <= 'z' {
            assert(r@ =~= value@.update(0, ((value@[0] as u8) - 32) as u8 as char));
        } else if (value@[0] as u32) < 128 {
            assert(r@ =~= value@);
        }
    }
    r
}

/// What follows the first words of a line about an outcome.
pub open spec fn outcome_details(code: u16, body: Seq<char>) -> Seq<char> {
    decimal_text(code as nat) + " ("@ + body + ")"@
}

/// The level of the line about an outcome.
pub open spec fn outcome_level(code: u16, warnings: bool) -> LogLevel {
    if 200 <= code < 300 {
        if warnings {
            LogLevel::Warn
        } else {
            LogLevel::Debug
        }
    } else if 400 <= code < 600 {
        LogLevel::Error
    } else {
        LogLevel::Warn
    }
}

/// The line about an outcome.
pub open spec fn outcome_message(name: Seq<char>, code: u16, body: Seq<char>) -> Seq<char> {
    let details = outcome_details(code, body);
    if 200 <= code < 300 {
        capitalized(name) + " submitted successfully with status code: "@ + details
    } else if 300 <= code < 400 {
        "Received redirect response from "@ + name + " server: "@ + details
    } else if 400 <= code < 500 {
        "Submitted invalid request to "@ + name + " server: "@ + details
    } else if 500 <= code < 600 {
        "Received server error response from "@ + name + " server: "@ + details
    } else {
        "Received unexpected response from "@ + name + " server: "@ + details
    }
}

/// The line about the outcome of a submission, at the level that fits it.
pub fn log_outcome(outcome: &SubmissionOutcome, submission_name: &str) -> (r: LogLine)
    ensures
        r.level == outcome_level(
            outcome.status@,
            outcome.body is Some && holds_warnings(outcome.body->0@),
        ),
        r.message@ == outcome_message(
            submission_name@,
            outcome.status@,
            body_text(outcome.body),
        ),
{
    let code: u16 = outcome.status.as_u16();
    let mut details = decimal(code as u64);
    details.append(" (");
    details.append(outcome.body_or_empty());
    details.append(")");
    assert(details@ =~= outcome_details(code, body_text(outcome.body)));
    if outcome.is_successful() {
        let mut message = capitalize(submission_name);
        message.append(" submitted successfully with status code: ");
        message.append(details.as_str());
        let level = if outcome.has_warnings() {
            LogLevel::Warn
        } else {
            LogLevel::Debug
        };
        return LogLine { level, message };
    }
    let (level, opening) = if 300 <= code && code < 400 {
        (LogLevel::Warn, "Received redirect response from ")
    } else if 400 <= code && code < 500 {
        (LogLevel::Error, "Submitted invalid request to ")
    } else if 500 <= code && code < 600 {
        (LogLevel::Error, "Received server error response from ")
    } else {
        (LogLevel::Warn, "Received unexpected response from ")
    };
    let mut message = opening.to_owned();
    message.append(submission_name);
    message.append(" server: ");
    message.append(details.as_str());
    LogLine { level, message }
}

/// A POST request, ready to be sent with the timeout [`TIMEOUT`].
#[derive(Debug)]
pub struct Request {
    pub url: Url,
    pub headers: Vec<(&'static str, String)>,
    pub body: Vec<u8>,
}

/// The headers as texts.
pub open spec fn header_texts(headers: Seq<(&'static str, String)>) -> Seq<(Seq<char>, Seq<char>)> {
    Seq::new(headers.len(), |i: int| (headers[i].0@, headers[i].1@))
}

/// The headers of a compressed submission.
pub open spec fn submit_headers(transport: TransportView) -> Seq<
    (Seq<char>, Seq<char>),
> {
    seq![
        ("Authorization"@, "Bearer "@ + transport.token),
        ("User-Agent"@, transport.sdk_info.user_agent),
        ("Content-Encoding"@, "gzip"@),
        ("Content-Type"@, "application/octet-stream"@),
    ]
}

/// The headers of a plain JSON request.
pub open spec fn json_headers(token: Seq<char>) -> Seq<(Seq<char>, Seq<char>)> {
    seq![
        ("Authorization"@, "Bearer "@ + token),
        ("Content-Type"@, "application/json"@),
    ]
}

/// The body of a plain request: the JSON text of the data, in UTF-8. `tree`
/// is what stands for the data where its text is made.
pub open spec fn plain_body(data: JsonView, tree: JsonView) -> Result<Seq<u8>, ErrorView> {
    if tree == data {
        Ok(encode_utf8(json_text(data)))
    } else {
        Err(ErrorView::Serialization("value differs from its JSON form"@))
    }
}

/// The body of a compressed request: the JSON text of the data, compressed.
pub open spec fn compressed_body(data: JsonView, tree: JsonView) -> Result<Seq<u8>, ErrorView> {
    match plain_body(data, tree) {
        Ok(bytes) => match gzip(bytes) {
            Ok(out) => Ok(out),
            Err(reason) => Err(ErrorView::Compression(reason)),
        },
        Err(e) => Err(e),
    }
}

/// Gzip-compresses `bytes`.
pub fn compress_gzip(bytes: &[u8]) -> (r: Result<Vec<u8>, Error>)
    ensures
        match r {
            Ok(out) => gzip(bytes@) == Ok::<Seq<u8>, Seq<char>>(out@) && out@.len() >= 2 && out@[0]
                == 0x1f && out@[1] == 0x8b,
            Err(e) => gzip(bytes@) is Err && e@ == ErrorView::Compression(gzip(bytes@)->Err_0),
        },
{
    match encode_gzip(bytes) {
        Ok(out) => Ok(out),
        Err(reason) => Err(Error::Compression(reason)),
    }
}

/// Builds the requests of every FastStats service.
pub struct Transport {
    token: Token,
    sdk_info: SdkInfo,
}

/// What a [`Transport`] puts into its requests.
pub struct TransportView {
    pub token: Seq<char>,
    pub sdk_info: SdkInfoView,
}

impl View for Transport {
    type V = TransportView;

    closed spec fn view(&self) -> TransportView {
        TransportView { token: self.token@, sdk_info: self.sdk_info@ }
    }
}

impl Transport {
    /// Constructs a new transport for the given token and SDK info.
    pub fn new(token: Token, sdk_info: SdkInfo) -> (r: Self)
        ensures
            r@ == (TransportView { token: token@, sdk_info: sdk_info@ }),
    {
        Transport { token, sdk_info }
    }

    fn authorization(&self) -> (s: String)
        ensures
            s@ == "Bearer "@ + self@.token,
    {
        let mut s = "Bearer ".to_owned();
        s.append(self.token.as_str());
        s
    }

    /// The request that submits `data` to `url`, with the JSON text of it as
    /// the body, gzip-compressed. `tree` is the data as `serde_json` holds
    /// it; if it holds anything else, that is an error.
    pub fn submit(&self, url: &Url, data: &JsonValue, tree: &serde_json::Value) -> (r: Result<
        Request,
        Error,
    >)
        ensures
            match r {
                Ok(request) => request.url@ == url@ && header_texts(request.headers@)
                    == submit_headers(self@) && compressed_body(data@, json_tree(*tree)) == Ok::<
                    Seq<u8>,
                    ErrorView,
                >(request.body@),
                Err(e) => compressed_body(data@, json_tree(*tree)) == Err::<Seq<u8>, ErrorView>(
                    e@,
                ),
            },
    {
        let text = match payload_text(data, tree) {
            Some(text) => text,
            None => {
                return Err(Error::Serialization("value differs from its JSON form".to_owned()));
            },
        };
        let body = match compress_gzip(text.as_str().as_bytes()) {
            Ok(body) => body,
            Err(e) => {
                return Err(e);
            },
        };
        let mut headers: Vec<(&'static str, String)> = Vec::new();
        headers.push(("Authorization", self.authorization()));
        headers.push(("User-Agent", self.sdk_info.user_agent().to_owned()));
        headers.push(("Content-Encoding", "gzip".to_owned()));
        headers.push(("Content-Type", "application/octet-stream".to_owned()));
        assert(header_texts(headers@) =~= submit_headers(self@));
        Ok(Request { url: url.clone(), headers, body })
    }

    /// The request that submits `data` to `url`, with the JSON text of it as
    /// the body. It names no user agent. `tree` is the data as `serde_json`
    /// holds it; if it holds anything else, that is an error.
    pub fn submit_json(&self, url: &Url, data: &JsonValue, tree: &serde_json::Value) -> (r: Result<
        Request,
        Error,
    >)
        ensures
            match r {
                Ok(request) => request.url@ == url@ && header_texts(request.headers@)
                    == json_headers(self@.token) && plain_body(data@, json_tree(*tree)) == Ok::<
                    Seq<u8>,
                    ErrorView,
                >(request.body@),
                Err(e) => plain_body(data@, json_tree(*tree)) == Err::<Seq<u8>, ErrorView>(e@),
            },
    {
        let text = match payload_text(data, tree) {
            Some(text) => text,
            None => {
                return Err(Error::Serialization("value differs from its JSON form".to_owned()));
            },
        };
        let mut headers: Vec<(&'static str, String)> = Vec::new();
        headers.push(("Authorization", self.authorization()));
        headers.push(("Content-Type", "application/json".to_owned()));
        assert(header_texts(headers@) =~= json_headers(self@.token));
        Ok(Request { url: url.clone(), headers, body: bytes_of(text.as_str()) })
    }
}

impl Clone for Transport {
    fn clone(&self) -> (r: Self)
        ensures
            r@ == self@,
    {
        Transport { token: self.token.clone(), sdk_info: self.sdk_info.clone() }
    }
}

} // verus!
