use std::io::Read;
use ureq::ErrorKind as K;
use vstd::prelude::*;
use crate::text::{chars_of, string_of};
use crate::web::HttpGetResult;
use crate::web::IHttpRequester;

verus! {

/// Cap of the bytes read from a binary response.
pub const MAX_BUFFER_LENGTH: u64 = 1000000;
/// Bytes read from a binary response that gives no length.
pub const NO_CONTENTLENGTH_BUFFER_SIZE: u64 = 1000000;
/// Error value of a text body that could not be read.
pub const RESPONSE_READ_ERROR: u8 = 14;

/// The kinds of transport errors that the HTTP client reports.
#[derive(Clone, Copy, Debug, PartialEq, Eq, Structural)]
pub enum UreqErrorKind {
    HTTP,
    InvalidUrl,
    UnknownScheme,
    Dns,
    InsecureRequestHttpsOnly,
    ConnectionFailed,
    TooManyRedirects,
    BadStatus,
    BadHeader,
    Io,
    InvalidProxyUrl,
    ProxyConnect,
    ProxyUnauthorized,
}

/// The number of a transport error kind: its place in the list HTTP, InvalidUrl,
/// UnknownScheme, Dns, ConnectionFailed, TooManyRedirects, BadStatus, BadHeader, Io,
/// InvalidProxyUrl, ProxyConnect, ProxyUnauthorized.
pub open spec fn kind_number(k: UreqErrorKind) -> u8 {
    match k {
        UreqErrorKind::HTTP => 0,
        UreqErrorKind::InvalidUrl => 1,
        UreqErrorKind::UnknownScheme => 2,
        UreqErrorKind::Dns => 3,
        UreqErrorKind::ConnectionFailed => 4,
        UreqErrorKind::TooManyRedirects => 5,
        UreqErrorKind::BadStatus => 6,
        UreqErrorKind::BadHeader => 7,
        UreqErrorKind::Io => 8,
        UreqErrorKind::InvalidProxyUrl => 9,
        UreqErrorKind::ProxyConnect => 10,
        UreqErrorKind::ProxyUnauthorized => 11,
        UreqErrorKind::InsecureRequestHttpsOnly => 12,
    }
}

/// The place of a transport error kind in the list of kinds.
pub fn ureq_error_kind_to_u8(e: UreqErrorKind) -> (r: u8)
    requires
        e != UreqErrorKind::InsecureRequestHttpsOnly,
    ensures
        r == kind_number(e),
        r < 12,
{
    kind_index(e)
}

/// The number of a transport error kind; 12 for the kind outside the list.
pub fn kind_index(e: UreqErrorKind) -> (r: u8)
    ensures
        r == kind_number(e),
{
    match e {
        UreqErrorKind::HTTP => 0,
        UreqErrorKind::InvalidUrl => 1,
        UreqErrorKind::UnknownScheme => 2,
        UreqErrorKind::Dns => 3,
        UreqErrorKind::ConnectionFailed => 4,
        UreqErrorKind::TooManyRedirects => 5,
        UreqErrorKind::BadStatus => 6,
        UreqErrorKind::BadHeader => 7,
        UreqErrorKind::Io => 8,
        UreqErrorKind::InvalidProxyUrl => 9,
        UreqErrorKind::ProxyConnect => 10,
        UreqErrorKind::ProxyUnauthorized => 11,
        UreqErrorKind::InsecureRequestHttpsOnly => 12,
    }
}

/// The name under which a transport error kind is printed.
pub fn kind_name(e: UreqErrorKind) -> (r: &'static str)
    ensures
        r@ == kind_label(e),
{
    match e {
        UreqErrorKind::HTTP => "HTTP",
        UreqErrorKind::InvalidUrl => "InvalidUrl",
        UreqErrorKind::UnknownScheme => "UnknownScheme",
        UreqErrorKind::Dns => "Dns",
        UreqErrorKind::InsecureRequestHttpsOnly => "InsecureRequestHttpsOnly",
        UreqErrorKind::ConnectionFailed => "ConnectionFailed",
        UreqErrorKind::TooManyRedirects => "TooManyRedirects",
        UreqErrorKind::BadStatus => "BadStatus",
        UreqErrorKind::BadHeader => "BadHeader",
        UreqErrorKind::Io => "Io",
        UreqErrorKind::InvalidProxyUrl => "InvalidProxyUrl",
        UreqErrorKind::ProxyConnect => "ProxyConnect",
        UreqErrorKind::ProxyUnauthorized => "ProxyUnauthorized",
    }
}

/// The spelled-out name of a transport error kind.
pub open spec fn kind_label(e: UreqErrorKind) -> Seq<char> {
    match e {
        UreqErrorKind::HTTP => "HTTP"@,
        UreqErrorKind::InvalidUrl => "InvalidUrl"@,
        UreqErrorKind::UnknownScheme => "UnknownScheme"@,
        UreqErrorKind::Dns => "Dns"@,
        UreqErrorKind::InsecureRequestHttpsOnly => "InsecureRequestHttpsOnly"@,
        UreqErrorKind::ConnectionFailed => "ConnectionFailed"@,
        UreqErrorKind::TooManyRedirects => "TooManyRedirects"@,
        UreqErrorKind::BadStatus => "BadStatus"@,
        UreqErrorKind::BadHeader => "BadHeader"@,
        UreqErrorKind::Io => "Io"@,
        UreqErrorKind::InvalidProxyUrl => "InvalidProxyUrl"@,
        UreqErrorKind::ProxyConnect => "ProxyConnect"@,
        UreqErrorKind::ProxyUnauthorized => "ProxyUnauthorized"@,
    }
}

/// A string holding `a` followed by `b`.
fn concat(a: &str, b: &str) -> (r: String)
    ensures
        r@ == a@ + b@,
{
    let mut v = chars_of(a);
    let w = chars_of(b);
    let mut i: usize = 0;
    let ghost v0 = v@;
    while i < w.len()
        invariant
            i <= w.len(),
            v@ == v0 + w@.take(i as int),
        decreases w.len() - i,
    {
        v.push(w[i]);
        proof {
            assert(w@.take(i + 1) =~= w@.take(i as int).push(w@[i as int]));
        }
        i = i + 1;
    }
    proof {
        assert(w@.take(w@.len() as int) =~= w@);
    }
    string_of(&v)
}

/// The body of a response, as read.
pub enum BodyOutcome {
    /// the body as text
    Text(String),
    /// the text body could not be read; the error, printed
    TextError(String),
    /// the body bytes
    Bytes(Vec<u8>),
    /// the byte body could not be read
    BytesError,
}

/// The outcome of one request, in plain values.
pub enum FetchOutcome {
    /// a response with a success status: the status, the Last-Modified header and what it
    /// parsed to (a timestamp, or the printed parse error), the Content-Length header (read
    /// for byte bodies only) and the number it spells where it spells one, and the body
    Received {
        status: u16,
        last_modified: Option<(String, Result<i64, String>)>,
        content_length_header: Option<String>,
        content_length: Option<u64>,
        body: BodyOutcome,
    },
    /// a response with an error status, and its status text
    StatusError { status: u16, status_text: String },
    /// no response: the kind of transport error and its message
    TransportError { kind: UreqErrorKind, message: Option<String> },
}

/// How many bytes to read of a binary body, given the length the server announced.
pub open spec fn read_limit_of(content_length: Option<u64>) -> u64 {
    match content_length {
        Some(l) => if l > 0 {
            if l < MAX_BUFFER_LENGTH { l } else { MAX_BUFFER_LENGTH }
        } else {
            NO_CONTENTLENGTH_BUFFER_SIZE
        },
        None => NO_CONTENTLENGTH_BUFFER_SIZE,
    }
}

/// How many bytes to read of a binary body: the announced length, capped; a fixed
/// amount where none was announced.
pub fn read_limit(content_length: Option<u64>) -> (r: u64)
    ensures
        r == read_limit_of(content_length),
        0 < r <= MAX_BUFFER_LENGTH,
{
    match content_length {
        Some(l) => if l > 0 {
            if l < MAX_BUFFER_LENGTH { l } else { MAX_BUFFER_LENGTH }
        } else {
            NO_CONTENTLENGTH_BUFFER_SIZE
        },
        None => NO_CONTENTLENGTH_BUFFER_SIZE,
    }
}

/// The result that a request reports for an outcome, field by field.
pub open spec fn result_of(o: FetchOutcome, r: HttpGetResult) -> bool {
    match o {
        FetchOutcome::Received { status, last_modified, content_length, body, .. } => {
            &&& r.http_status == status as i16
            &&& r.timestamp == match last_modified {
                Some((_, Ok(ts))) => ts,
                _ => -1i64,
            }
            &&& r.error_description@ == match body {
                BodyOutcome::TextError(e) => "ResponseError: "@ + e@,
                _ => match last_modified {
                    Some((text, Err(e))) => "Error parse_from_rfc2822(`"@ + text@ + "`) "@ + e@ + " "@,
                    _ => Seq::<char>::empty(),
                },
            }
            &&& r.http_err_val == match body {
                BodyOutcome::TextError(_) => RESPONSE_READ_ERROR as i16,
                _ => 0,
            }
            &&& r.content@ == match body {
                BodyOutcome::Text(t) => t@,
                _ => Seq::<char>::empty(),
            }
            &&& r.content_bin@ == match body {
                BodyOutcome::Bytes(b) => b@,
                _ => Seq::<u8>::empty(),
            }
            &&& r.content_length == match body {
                BodyOutcome::Bytes(_) | BodyOutcome::BytesError => match content_length {
                    Some(l) => l as i64,
                    None => -1i64,
                },
                _ => -1i64,
            }
        },
        FetchOutcome::StatusError { status, status_text } => {
            &&& r.http_status == status as i16
            &&& r.http_err_val == 0
            &&& r.error_description@ == status_text@
            &&& r.content@ == Seq::<char>::empty()
            &&& r.content_bin@ == Seq::<u8>::empty()
            &&& r.content_length == -1
            &&& r.timestamp == -1
        },
        FetchOutcome::TransportError { kind, message } => {
            &&& r.http_status == 0
            &&& r.http_err_val == kind_number(kind) as i16
            &&& r.error_description@ == "transport:"@ + kind_label(kind) + "  "@ + match message {
                Some(m) => m@,
                None => Seq::<char>::empty(),
            }
            &&& r.content@ == Seq::<char>::empty()
            &&& r.content_bin@ == Seq::<u8>::empty()
            &&& r.content_length == -1
            &&& r.timestamp == -1
        },
    }
}

/// The result that a request reports for an outcome.
pub fn http_get_result(o: FetchOutcome) -> (r: HttpGetResult)
    ensures
        result_of(o, r),
{
    let ghost o0 = o;
    match o {
        FetchOutcome::Received { status, last_modified, content_length, body, .. } => {
            let mut timestamp: i64 = -1;
            let mut ed = String::new();
            match &last_modified {
                Some((text, Ok(ts))) => {
                    timestamp = *ts;
                },
                Some((text, Err(e))) => {
                    let a = concat("Error parse_from_rfc2822(`", text.as_str());
                    let b = concat(a.as_str(), "`) ");
                    let c = concat(b.as_str(), e.as_str());
                    ed = concat(c.as_str(), " ");
                    proof {
                        assert(ed@ =~= "Error parse_from_rfc2822(`"@ + text@ + "`) "@ + e@ + " "@);
                    }
                },
                None => {},
            }
            let mut err_val: i16 = 0;
            let mut content = String::new();
            let mut content_bin: Vec<u8> = Vec::new();
            let mut cl: i64 = -1;
            match body {
                BodyOutcome::Text(t) => {
                    content = t;
                },
                BodyOutcome::TextError(e) => {
                    err_val = RESPONSE_READ_ERROR as i16;
                    ed = concat("ResponseError: ", e.as_str());
                },
                BodyOutcome::Bytes(b) => {
                    content_bin = b;
                    if let Some(l) = content_length {
                        cl = l as i64;
                    }
                },
                BodyOutcome::BytesError => {
                    if let Some(l) = content_length {
                        cl = l as i64;
                    }
                },
            }
            HttpGetResult {
                content,
                content_bin,
                http_status: status as i16,
                http_err_val: err_val,
                error_description: ed,
                content_length: cl,
                timestamp,
            }
        },
        FetchOutcome::StatusError { status, status_text } => {
            HttpGetResult {
                content: String::new(),
                content_bin: Vec::new(),
                http_status: status as i16,
                http_err_val: 0,
                error_description: status_text,
                content_length: -1,
                timestamp: -1,
            }
        },
        FetchOutcome::TransportError { kind, message } => {
            let a = concat("transport:", kind_name(kind));
            let b = concat(a.as_str(), "  ");
            let ed = match &message {
                Some(m) => concat(b.as_str(), m.as_str()),
                None => concat(b.as_str(), ""),
            };
            proof {
                reveal_strlit("");
                assert(ed@ =~= "transport:"@ + kind_label(kind) + "  "@ + match message {
                    Some(m) => m@,
                    None => Seq::<char>::empty(),
                });
            }
            HttpGetResult {
                content: String::new(),
                content_bin: Vec::new(),
                http_status: 0,
                http_err_val: kind_index(kind) as i16,
                error_description: ed,
                content_length: -1,
                timestamp: -1,
            }
        },
    }
}

/// The outcome is one that a request in the given mode can have: the Last-Modified header
/// parsed as an RFC 2822 date; for binary requests the Content-Length header read as a
/// number and a byte body of at most the read limit; for text requests no length and a
/// text body.
pub open spec fn outcome_fits(o: FetchOutcome, is_binary: bool) -> bool {
    match o {
        FetchOutcome::Received { last_modified, content_length_header, content_length, body, .. } => {
            &&& match last_modified {
                Some((t, Ok(ts))) => rfc2822_parsed(t@) == Ok::<i64, Seq<char>>(ts),
                Some((t, Err(e))) => rfc2822_parsed(t@) == Err::<i64, Seq<char>>(e@),
                None => true,
            }
            &&& if is_binary {
                content_length == match content_length_header {
                    Some(h) => u64_parsed(h@),
                    None => None,
                }
            } else {
                content_length_header is None && content_length is None
            }
            &&& match body {
                BodyOutcome::Text(_) | BodyOutcome::TextError(_) => !is_binary,
                BodyOutcome::Bytes(b) => is_binary && b@.len() <= read_limit_of(content_length),
                BodyOutcome::BytesError => is_binary,
            }
        },
        _ => true,
    }
}

/// One request as it was sent, with its outcome: the URL, the user agent, and what came
/// back.
pub struct Fetched {
    pub url: String,
    pub user_agent: String,
    pub outcome: FetchOutcome,
}

/// The user agent that the fetcher announces.
pub open spec fn fetcher_agent() -> Seq<char> {
    "ferris/1.0"@
}

/// The result reports a request to `url` with the fetcher's user agent, in the given
/// mode (see `result_of` and `outcome_fits`).
pub open spec fn fetched_from(f: Fetched, url: Seq<char>, is_binary: bool, r: HttpGetResult) -> bool {
    &&& f.url@ == url
    &&& f.user_agent@ == fetcher_agent()
    &&& result_of(f.outcome, r)
    &&& outcome_fits(f.outcome, is_binary)
}

/// The value of a run of decimal digits.
pub open spec fn decimal_value(digits: Seq<char>) -> int
    decreases digits.len(),
{
    if digits.len() == 0 {
        0
    } else {
        decimal_value(digits.drop_last()) * 10 + (digits.last() as int - '0' as int)
    }
}

/// Every character is a decimal digit.
pub open spec fn all_digits(s: Seq<char>) -> bool {
    forall|i: int| 0 <= i < s.len() ==> '0' <= #[trigger] s[i] <= '9'
}

/// A text without its leading `+`, where it has one.
pub open spec fn unsigned_digits(text: Seq<char>) -> Seq<char> {
    if text.len() > 0 && text[0] == '+' { text.skip(1) } else { text }
}

/// The number that a text spells in decimal, or `None` where it spells none that fits
/// in 64 bits. As `str::parse::<u64>` documents it: an optional `+` followed by one or
/// more digits and nothing else.
pub open spec fn u64_parsed(text: Seq<char>) -> Option<u64> {
    let digits = unsigned_digits(text);
    if digits.len() > 0 && all_digits(digits) && decimal_value(digits) <= u64::MAX {
        Some(decimal_value(digits) as u64)
    } else {
        None
    }
}

/// The UNIX timestamp of an RFC 2822 date, or the printed parse error (as chrono reads it).
pub uninterp spec fn rfc2822_parsed(text: Seq<char>) -> Result<i64, Seq<char>>;

#[verifier::external_type_specification]
#[verifier::external_body]
pub struct ExUreqResponse(ureq::Response);

#[verifier::external_type_specification]
#[verifier::external_body]
pub struct ExUreqErrorKind(ureq::ErrorKind);

/// What the HTTP client hands back for a request.
pub enum CallResult {
    Response(ureq::Response),
    Status(u16, String),
    Transport(ureq::ErrorKind, Option<String>),
}

/// Sends a GET request.
///
/// Builds a `ureq` agent with the given user agent and calls `get(url).call()`; the
/// status text of an error response and the message of a transport error are copied
/// out. Hands back, beside the outcome, the URL and the user agent that the request was
/// sent with. The outcome depends on the network, so nothing is claimed of it.
#[verifier::external_body]
fn http_call(url: &str, user_agent: &str) -> (r: (CallResult, String, String))
    ensures
        r.1@ == url@,
        r.2@ == user_agent@,
{
    let agent = ureq::builder().user_agent(user_agent).build();
    let outcome = match agent.get(url).call() {
        Ok(response) => CallResult::Response(response),
        Err(ureq::Error::Status(status, response)) => CallResult::Status(status, response.status_text().to_string()),
        Err(ureq::Error::Transport(t)) => CallResult::Transport(t.kind(), t.message().map(|m| m.to_string())),
    };
    (outcome, url.to_string(), user_agent.to_string())
}

/// Tells the kinds of `ureq::ErrorKind` apart.
#[verifier::external_body]
fn convert_kind(k: ureq::ErrorKind) -> (r: UreqErrorKind) {
    match k {
        K::HTTP => UreqErrorKind::HTTP, K::InvalidUrl => UreqErrorKind::InvalidUrl,
        K::UnknownScheme => UreqErrorKind::UnknownScheme, K::Dns => UreqErrorKind::Dns,
        K::InsecureRequestHttpsOnly => UreqErrorKind::InsecureRequestHttpsOnly,
        K::ConnectionFailed => UreqErrorKind::ConnectionFailed,
        K::TooManyRedirects => UreqErrorKind::TooManyRedirects, K::BadStatus => UreqErrorKind::BadStatus,
        K::BadHeader => UreqErrorKind::BadHeader, K::Io => UreqErrorKind::Io,
        K::InvalidProxyUrl => UreqErrorKind::InvalidProxyUrl, K::ProxyConnect => UreqErrorKind::ProxyConnect,
        K::ProxyUnauthorized => UreqErrorKind::ProxyUnauthorized,
    }
}

/// The status code of a response (`ureq::Response::status`); it comes from the server.
#[verifier::external_body]
fn response_status(r: &ureq::Response) -> (s: u16) {
    r.status()
}

/// A header of a response (`ureq::Response::header`); it comes from the server.
#[verifier::external_body]
fn response_header(r: &ureq::Response, name: &str) -> (h: Option<String>) {
    r.header(name).map(|v| v.to_string())
}

/// Reads at most `limit` bytes of the body (`into_reader().take(limit).read_to_end(..)`,
/// which never yields more than `limit` bytes); `None` where reading fails.
#[verifier::external_body]
fn response_bytes(r: ureq::Response, limit: u64) -> (b: Option<Vec<u8>>)
    ensures
        b matches Some(v) ==> v@.len() <= limit,
{
    let mut buf: Vec<u8> = Vec::new();
    match r.into_reader().take(limit).read_to_end(&mut buf) {
        Ok(_) => Some(buf),
        Err(_) => None,
    }
}

/// Reads the body as text (`ureq::Response::into_string`); on failure, the printed error.
#[verifier::external_body]
fn response_text(r: ureq::Response) -> (t: Result<String, String>) {
    match r.into_string() {
        Ok(s) => Ok(s),
        Err(e) => Err(format!("{e:?}")),
    }
}

/// A run of digits has a value of zero or more.
proof fn lemma_decimal_value_nonneg(d: Seq<char>)
    requires
        forall|i: int| 0 <= i < d.len() ==> '0' <= #[trigger] d[i] <= '9',
    ensures
        decimal_value(d) >= 0,
    decreases d.len(),
{
    if d.len() > 0 {
        assert(d[d.len() - 1] == d.last());
        lemma_decimal_value_nonneg(d.drop_last());
    }
}

/// Appending digits to a run of digits never lowers its value.
proof fn lemma_decimal_value_grows(d: Seq<char>, k: int)
    requires
        0 <= k <= d.len(),
        forall|i: int| 0 <= i < d.len() ==> '0' <= #[trigger] d[i] <= '9',
    ensures
        decimal_value(d.take(k)) <= decimal_value(d),
    decreases d.len() - k,
{
    if k < d.len() {
        let e = d.take(k + 1);
        assert(e.drop_last() =~= d.take(k));
        assert(decimal_value(e) == decimal_value(d.take(k)) * 10 + (e.last() as int - '0' as int));
        assert(e.last() == d[k]);
        lemma_decimal_value_nonneg(d.take(k));
        lemma_decimal_value_grows(d, k + 1);
    } else {
        assert(d.take(k) =~= d);
    }
}

/// Reads a decimal number as `str::parse::<u64>` does (see `u64_parsed`).
fn parse_u64(text: &str) -> (r: Option<u64>)
    ensures
        r == u64_parsed(text@),
{
    let c = chars_of(text);
    let start: usize = if c.len() > 0 && c[0] == '+' { 1 } else { 0 };
    let ghost digits = unsigned_digits(text@);
    proof {
        assert(digits =~= c@.skip(start as int));
    }
    if start >= c.len() {
        return None;
    }
    let mut value: u64 = 0;
    let mut i: usize = start;
    proof {
        assert(digits.take(0) =~= Seq::<char>::empty());
    }
    while i < c.len()
        invariant
            start <= i <= c@.len(),
            c@ == text@,
            digits == unsigned_digits(text@),
            digits =~= c@.skip(start as int),
            forall|j: int| 0 <= j < i - start ==> '0' <= #[trigger] digits[j] <= '9',
            value == decimal_value(digits.take(i - start)),
        decreases c.len() - i,
    {
        let ch = c[i];
        if ch < '0' || ch > '9' {
            proof {
                assert(digits[i - start] == ch);
                assert(!all_digits(digits));
                assert(u64_parsed(text@) is None);
            }
            return None;
        }
        let dv = (ch as u32 - '0' as u32) as u64;
        let ghost e = digits.take(i - start + 1);
        proof {
            assert(e.drop_last() =~= digits.take(i - start));
            assert(e.last() == ch);
        }
        if value > (u64::MAX - dv) / 10 {
            proof {
                assert(decimal_value(e) > u64::MAX) by (nonlinear_arith)
                    requires
                        value > (u64::MAX - dv) / 10,
                        decimal_value(e) == value * 10 + dv,
                        dv <= 9;
                if all_digits(digits) {
                    lemma_decimal_value_grows(digits, i - start + 1);
                    assert(decimal_value(digits) > u64::MAX);
                }
                assert(u64_parsed(text@) is None);
            }
            return None;
        }
        value = value * 10 + dv;
        i = i + 1;
    }
    proof {
        assert(digits.take(i - start) =~= digits);
    }
    Some(value)
}

/// Reads an RFC 2822 date (`chrono::DateTime::parse_from_rfc2822`) into a UNIX timestamp;
/// on failure, the printed error. The result is named by `rfc2822_parsed`.
#[verifier::external_body]
pub(crate) fn parse_rfc2822(text: &str) -> (r: Result<i64, String>)
    ensures
        match r {
            Ok(ts) => rfc2822_parsed(text@) == Ok::<i64, Seq<char>>(ts),
            Err(e) => rfc2822_parsed(text@) == Err::<i64, Seq<char>>(e@),
        },
{
    match chrono::DateTime::parse_from_rfc2822(text) {
        Ok(dt) => Ok(chrono::DateTime::<chrono::Local>::from(dt).timestamp()),
        Err(e) => Err(format!("{:?}", &e)),
    }
}

/// Fetches web content over HTTP.
pub struct HttpFetcher {}

impl HttpFetcher {
    /// Requests `url` with the user agent `ferris/1.0` and reads its body as text, or as
    /// at most a capped number of bytes.
    fn fetch(&self, url: &str, is_binary: bool) -> (r: HttpGetResult)
        ensures
            exists|f: Fetched| #[trigger] fetched_from(f, url@, is_binary, r),
    {
        let (call, sent_url, sent_agent) = http_call(url, "ferris/1.0");
        let outcome = match call {
            CallResult::Response(response) => {
                let status = response_status(&response);
                let last_modified = match response_header(&response, "Last-Modified") {
                    Some(text) => {
                        let parsed = parse_rfc2822(text.as_str());
                        Some((text, parsed))
                    },
                    None => None,
                };
                if is_binary {
                    let content_length_header = response_header(&response, "Content-Length");
                    let content_length = match &content_length_header {
                        Some(h) => parse_u64(h.as_str()),
                        None => None,
                    };
                    let limit = read_limit(content_length);
                    let body = match response_bytes(response, limit) {
                        Some(b) => BodyOutcome::Bytes(b),
                        None => BodyOutcome::BytesError,
                    };
                    FetchOutcome::Received { status, last_modified, content_length_header, content_length, body }
                } else {
                    let body = match response_text(response) {
                        Ok(t) => BodyOutcome::Text(t),
                        Err(e) => BodyOutcome::TextError(e),
                    };
                    FetchOutcome::Received {
                        status,
                        last_modified,
                        content_length_header: None,
                        content_length: None,
                        body,
                    }
                }
            },
            CallResult::Status(status, status_text) => FetchOutcome::StatusError { status, status_text },
            CallResult::Transport(kind, message) => FetchOutcome::TransportError { kind: convert_kind(kind), message },
        };
        let ghost o = outcome;
        proof {
            assert(outcome_fits(o, is_binary));
            reveal_strlit("ferris/1.0");
        }
        let r = http_get_result(outcome);
        let ghost f = Fetched { url: sent_url, user_agent: sent_agent, outcome: o };
        proof {
            assert(fetched_from(f, url@, is_binary, r));
        }
        r
    }
}

impl IHttpRequester for HttpFetcher {
    /// Requests `url` and reads its body as text.
    fn request_url(&self, url: &str) -> (r: HttpGetResult)
        ensures
            exists|f: Fetched| #[trigger] fetched_from(f, url@, false, r),
    {
        self.fetch(url, false)
    }

    /// Requests `url` and reads its body as bytes.
    fn request_url_bin(&self, url: &str) -> (r: HttpGetResult)
        ensures
            exists|f: Fetched| #[trigger] fetched_from(f, url@, true, r),
    {
        self.fetch(url, true)
    }
}

} // verus!
