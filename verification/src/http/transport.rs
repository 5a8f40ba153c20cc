//! HTTP requests and responses.
use crate::encoding::{parsed_json, read_json};
use crate::model::{
    appended, failure, field_named, invalid, invalid_request, is_text_result, protocol,
    protocol_failure, ConnectionProfile, ConnectorError, Endpoint, ErrorCategory, ErrorModel,
    ErrorPhase,
};
use crate::text::{
    decimal, decimal_text, names_of, optional_str, optional_text, same, split, split_on, texts,
    trim_leading, trim_trailing, without_leading, without_trailing_char,
};
use crate::value::{Json, JsonModel};
use vstd::prelude::*;

verus! {

broadcast use {crate::text::group_texts, crate::value::group_models};

/// HTTP methods.
#[derive(Debug)]
pub enum HttpMethod {
    Get,
    Head,
    Post,
    Put,
    Delete,
    Other(String),
}

/// What an [`HttpMethod`] is.
pub enum MethodModel {
    Get,
    Head,
    Post,
    Put,
    Delete,
    Other(Seq<char>),
}

impl View for HttpMethod {
    type V = MethodModel;

    open spec fn view(&self) -> MethodModel {
        match *self {
            HttpMethod::Get => MethodModel::Get,
            HttpMethod::Head => MethodModel::Head,
            HttpMethod::Post => MethodModel::Post,
            HttpMethod::Put => MethodModel::Put,
            HttpMethod::Delete => MethodModel::Delete,
            HttpMethod::Other(text) => MethodModel::Other(text@),
        }
    }
}

/// The body of a request.
#[derive(Debug)]
pub enum HttpBody {
    Empty,
    Json(Json),
    /// A text of a content type.
    Text { content_type: String, text: String },
    /// Fields of a form.
    Form(Vec<(String, String)>),
}

/// What an [`HttpBody`] is.
pub enum BodyModel {
    Empty,
    Json(JsonModel),
    Text { content_type: Seq<char>, text: Seq<char> },
    Form(Seq<(Seq<char>, Seq<char>)>),
}

/// What pairs of texts are.
pub open spec fn pairs(list: Seq<(String, String)>) -> Seq<(Seq<char>, Seq<char>)> {
    Seq::new(list.len(), |i: int| (list[i].0@, list[i].1@))
}

/// Adding a pair adds what it is.
pub broadcast proof fn lemma_pairs_push(list: Seq<(String, String)>, item: (String, String))
    ensures
        #[trigger] pairs(list.push(item)) == pairs(list).push((item.0@, item.1@)),
{
    assert(pairs(list.push(item)) =~= pairs(list).push((item.0@, item.1@)));
}

/// No pairs are no pairs.
pub broadcast proof fn lemma_no_pairs()
    ensures
        #[trigger] pairs(Seq::<(String, String)>::empty()) == Seq::<(Seq<char>, Seq<char>)>::empty(),
{
    assert(pairs(Seq::<(String, String)>::empty()) =~= Seq::<(Seq<char>, Seq<char>)>::empty());
}

pub broadcast group group_pairs {
    lemma_pairs_push,
    lemma_no_pairs,
}

impl View for HttpBody {
    type V = BodyModel;

    open spec fn view(&self) -> BodyModel {
        match *self {
            HttpBody::Empty => BodyModel::Empty,
            HttpBody::Json(document) => BodyModel::Json(document@),
            HttpBody::Text { content_type, text } => BodyModel::Text {
                content_type: content_type@,
                text: text@,
            },
            HttpBody::Form(fields) => BodyModel::Form(pairs(fields@)),
        }
    }
}

/// A request.
#[derive(Debug)]
pub struct HttpRequest {
    pub method: HttpMethod,
    pub url: String,
    pub query: Vec<(String, String)>,
    pub body: HttpBody,
    pub timeout_ms: Option<u64>,
}

/// What an [`HttpRequest`] is.
pub struct RequestModel {
    pub method: MethodModel,
    pub url: Seq<char>,
    pub query: Seq<(Seq<char>, Seq<char>)>,
    pub body: BodyModel,
    pub timeout_ms: Option<u64>,
}

impl View for HttpRequest {
    type V = RequestModel;

    open spec fn view(&self) -> RequestModel {
        RequestModel {
            method: self.method@,
            url: self.url@,
            query: pairs(self.query@),
            body: self.body@,
            timeout_ms: self.timeout_ms,
        }
    }
}

/// Whether a request is what is expected of it.
pub open spec fn is_request_result(
    result: Result<HttpRequest, ConnectorError>,
    expected: Result<RequestModel, ErrorModel>,
) -> bool {
    match (result, expected) {
        (Ok(request), Ok(wanted)) => request@ == wanted,
        (Err(error), Err(wanted)) => error@ == wanted,
        _ => false,
    }
}

/// A request without a query or a body.
pub open spec fn plain_request(method: MethodModel, url: Seq<char>) -> RequestModel {
    RequestModel {
        method,
        url,
        query: Seq::empty(),
        body: BodyModel::Empty,
        timeout_ms: None,
    }
}

/// A request with a JSON body.
pub open spec fn json_request(method: MethodModel, url: Seq<char>, body: JsonModel) -> RequestModel {
    RequestModel { body: BodyModel::Json(body), ..plain_request(method, url) }
}

/// Makes a request without a query or a body.
pub fn request(method: HttpMethod, url: String) -> (result: HttpRequest)
    ensures
        result@ == plain_request(method@, url@),
{
    broadcast use group_pairs;

    HttpRequest { method, url, query: Vec::new(), body: HttpBody::Empty, timeout_ms: None }
}

/// Makes a request with a JSON body.
pub fn request_json(method: HttpMethod, url: String, body: Json) -> (result: HttpRequest)
    ensures
        result@ == json_request(method@, url@, body@),
{
    broadcast use group_pairs;

    HttpRequest { method, url, query: Vec::new(), body: HttpBody::Json(body), timeout_ms: None }
}

/// The parts of a URL.
pub struct EndpointModel {
    pub text: Seq<char>,
    pub scheme: Seq<char>,
    pub host: Option<Seq<char>>,
    pub port: Option<u16>,
    pub path: Seq<char>,
    pub username: Seq<char>,
    pub password: Option<Seq<char>>,
    pub query: Option<Seq<char>>,
    pub fragment: Option<Seq<char>>,
    pub cannot_be_a_base: bool,
}

impl View for Endpoint {
    type V = EndpointModel;

    open spec fn view(&self) -> EndpointModel {
        EndpointModel {
            text: self.text@,
            scheme: self.scheme@,
            host: optional_text(self.host),
            port: self.port,
            path: self.path@,
            username: self.username@,
            password: optional_text(self.password),
            query: optional_text(self.query),
            fragment: optional_text(self.fragment),
            cannot_be_a_base: self.cannot_be_a_base,
        }
    }
}

/// The parts of the URL that a text is.
pub uninterp spec fn url_parts(text: Seq<char>) -> Option<EndpointModel>;

/// The URL that a base URL becomes with a path and further path segments.
pub uninterp spec fn url_with_segments(
    base: Seq<char>,
    path: Seq<char>,
    segments: Seq<Seq<char>>,
) -> Option<Seq<char>>;

/// `url::Url::parse`, by the parts of the URL.
#[verifier::external_body]
pub(crate) fn parse_endpoint(text: &str) -> (result: Option<Endpoint>)
    ensures
        match (result, url_parts(text@)) {
            (Some(endpoint), Some(wanted)) => endpoint@ == wanted,
            (None, None) => true,
            _ => false,
        },
{
    let url = url::Url::parse(text).ok()?;
    let owned = |part: Option<&str>| part.map(str::to_owned);
    Some(Endpoint {
        text: url.to_string(),
        scheme: url.scheme().to_owned(),
        host: owned(url.host_str()),
        port: url.port(),
        path: url.path().to_owned(),
        username: url.username().to_owned(),
        password: owned(url.password()),
        query: owned(url.query()),
        fragment: owned(url.fragment()),
        cannot_be_a_base: url.cannot_be_a_base(),
    })
}

/// `url::Url::set_path` and `url::PathSegmentsMut::extend` on a parsed URL.
#[verifier::external_body]
fn extend_url(base: &str, path: &str, segments: &Vec<String>) -> (result: Option<String>)
    ensures
        optional_text(result) == url_with_segments(base@, path@, texts(segments@)),
{
    let mut url = url::Url::parse(base).ok()?;
    url.set_path(path);
    url.path_segments_mut().ok()?.extend(segments);
    Some(url.into())
}

/// Whether a path segment cannot be appended.
pub open spec fn is_relative(segment: Seq<char>) -> bool {
    segment.len() == 0 || segment == "."@ || segment == ".."@
}

/// Whether some path segment cannot be appended.
pub open spec fn has_relative(segments: Seq<Seq<char>>) -> bool {
    exists|i: int| 0 <= i < segments.len() && is_relative(#[trigger] segments[i])
}

/// A base URL with path segments appended: a plain HTTP URL, and no segment that is empty or
/// leads elsewhere.
pub open spec fn segments_result(base: EndpointModel, segments: Seq<Seq<char>>) -> Result<
    Seq<char>,
    ErrorModel,
> {
    if base.cannot_be_a_base {
        Err(invalid_request("endpoint URL cannot be a base URL"@))
    } else if !(base.scheme == "http"@ || base.scheme == "https"@) || base.host is None
        || base.username.len() > 0 || base.password is Some || base.query is Some
        || base.fragment is Some {
        Err(invalid_request("HTTP base URL contains an unsupported component"@))
    } else if has_relative(segments) {
        Err(invalid_request("invalid empty or relative path segment"@))
    } else {
        match url_with_segments(base.text, without_trailing_char(base.path, '/'), segments) {
            Some(url) => Ok(url),
            None => Err(invalid_request("endpoint URL cannot contain API paths"@)),
        }
    }
}

/// Whether some path segment cannot be appended.
fn any_relative(segments: &Vec<String>) -> (result: bool)
    ensures
        result == has_relative(texts(segments@)),
{
    let ghost all = texts(segments@);
    let mut i: usize = 0;
    while i < segments.len()
        invariant
            i <= segments@.len(),
            all == texts(segments@),
            forall|j: int| 0 <= j < i ==> !is_relative(#[trigger] all[j]),
        decreases segments@.len() - i,
    {
        let segment = segments[i].as_str();
        if segment.is_empty() || same(segment, ".") || same(segment, "..") {
            assert(is_relative(all[i as int]));
            return true;
        }
        i = i + 1;
    }
    false
}

/// Appends path segments to a base URL.
pub fn append_segments(base: &Endpoint, segments: &Vec<String>) -> (result: Result<
    String,
    ConnectorError,
>)
    ensures
        is_text_result(result, segments_result(base@, texts(segments@))),
{
    if base.cannot_be_a_base {
        return Err(invalid("endpoint URL cannot be a base URL"));
    }
    let scheme = base.scheme.as_str();
    if !(same(scheme, "http") || same(scheme, "https")) || base.host.is_none()
        || !base.username.as_str().is_empty() || base.password.is_some() || base.query.is_some()
        || base.fragment.is_some() {
        return Err(invalid("HTTP base URL contains an unsupported component"));
    }
    if any_relative(segments) {
        return Err(invalid("invalid empty or relative path segment"));
    }
    let path = trim_trailing(base.path.as_str(), '/');
    match extend_url(base.text.as_str(), path.as_str(), segments) {
        Some(url) => Ok(url),
        None => Err(invalid("endpoint URL cannot contain API paths")),
    }
}

/// Owned copies of borrowed texts.
pub fn owned_texts(list: &[&str]) -> (result: Vec<String>)
    ensures
        texts(result@) == names_of(list@),
{
    let mut result: Vec<String> = Vec::new();
    let mut i: usize = 0;
    while i < list.len()
        invariant
            i <= list@.len(),
            result@.len() == i,
            forall|j: int| 0 <= j < i ==> (#[trigger] result@[j])@ == list@[j]@,
        decreases list@.len() - i,
    {
        result.push(list[i].to_owned());
        i = i + 1;
    }
    assert(texts(result@) =~= names_of(list@));
    result
}

/// The URL of an API path under the endpoint of a profile.
pub fn api_url(profile: &ConnectionProfile, segments: &[&str]) -> (result: Result<
    String,
    ConnectorError,
>)
    ensures
        is_text_result(result, segments_result(profile.endpoint@, names_of(segments@))),
{
    let list = owned_texts(segments);
    append_segments(&profile.endpoint, &list)
}

/// The URL of a path that a caller wrote, under the endpoint of a profile.
pub open spec fn native_url_result(profile: ConnectionProfile, path: Seq<char>) -> Result<
    Seq<char>,
    ErrorModel,
> {
    segments_result(profile.endpoint@, split_on(without_leading(path, '/'), '/'))
}

/// The URL of a path that a caller wrote.
pub fn native_url(profile: &ConnectionProfile, path: &str) -> (result: Result<
    String,
    ConnectorError,
>)
    ensures
        is_text_result(result, native_url_result(*profile, path@)),
{
    let path = trim_leading(path, '/');
    let segments = split(path.as_str(), '/');
    append_segments(&profile.endpoint, &segments)
}

/// The smallest limit for a response.
pub const MIN_RESPONSE_BYTES: u64 = 1_048_576;

/// The largest limit for a response.
pub const MAX_RESPONSE_BYTES: u64 = 33_554_432;

/// How many bytes a response may have: four times the budget of the result, within bounds.
pub open spec fn response_limit(max_bytes: u64) -> int {
    if max_bytes * 4 < MIN_RESPONSE_BYTES {
        MIN_RESPONSE_BYTES as int
    } else if max_bytes * 4 > MAX_RESPONSE_BYTES {
        MAX_RESPONSE_BYTES as int
    } else {
        max_bytes * 4
    }
}

/// How many bytes a response may have.
pub fn response_body_limit(max_bytes: u64) -> (result: u64)
    ensures
        result == response_limit(max_bytes),
{
    if max_bytes < MIN_RESPONSE_BYTES / 4 {
        MIN_RESPONSE_BYTES
    } else if max_bytes > MAX_RESPONSE_BYTES / 4 {
        MAX_RESPONSE_BYTES
    } else {
        max_bytes * 4
    }
}

/// The error of a response that is too large.
pub open spec fn oversized_response() -> ErrorModel {
    protocol_failure("database response exceeded the configured response limit"@)
}

/// Refuses a response whose announced length is beyond the limit.
pub fn admit_length(content_length: Option<u64>, limit: u64) -> (result: Result<
    (),
    ConnectorError,
>)
    ensures
        crate::model::error_of(result) == (match content_length {
            Some(length) if length > limit => Some(oversized_response()),
            _ => None,
        }),
{
    match content_length {
        Some(length) => {
            if length > limit {
                return Err(protocol("database response exceeded the configured response limit"));
            }
        },
        None => {},
    }
    Ok(())
}

/// Refuses a part of a response with which it would be beyond the limit.
pub fn admit_chunk(received: u64, chunk: u64, limit: u64) -> (result: Result<(), ConnectorError>)
    ensures
        crate::model::error_of(result) == (if received + chunk > limit {
            Some(oversized_response())
        } else {
            None
        }),
{
    if received > limit || chunk > limit - received {
        return Err(protocol("database response exceeded the configured response limit"));
    }
    Ok(())
}

/// A status with its name, as `http::StatusCode` displays it.
pub uninterp spec fn status_line(code: u16) -> Seq<char>;

/// `http::StatusCode::from_u16` and its `Display`. Codes outside three digits have no status.
#[verifier::external_body]
fn status_text(code: u16) -> (result: String)
    requires
        100 <= code <= 999,
    ensures
        result@ == status_line(code),
{
    reqwest::StatusCode::from_u16(code).map_or_else(|_| String::new(), |status| status.to_string())
}

/// The category of a status, and whether a retry is worth it.
pub open spec fn status_category(status: int) -> (ErrorCategory, bool) {
    if status == 400 || status == 405 || status == 406 || status == 411 || status == 413 || status
        == 415 || status == 422 {
        (ErrorCategory::InvalidRequest, false)
    } else if status == 401 {
        (ErrorCategory::Authentication, false)
    } else if status == 403 {
        (ErrorCategory::PermissionDenied, false)
    } else if status == 404 {
        (ErrorCategory::NotFound, false)
    } else if status == 408 || status == 504 {
        (ErrorCategory::Timeout, true)
    } else if status == 409 {
        (ErrorCategory::Conflict, false)
    } else if status == 429 {
        (ErrorCategory::RateLimited, true)
    } else if 500 <= status <= 503 {
        (ErrorCategory::Unavailable, true)
    } else {
        (ErrorCategory::Protocol, false)
    }
}

/// The category of a status, and whether a retry is worth it.
pub fn categorize_status(status: u64) -> (result: (ErrorCategory, bool))
    ensures
        result == status_category(status as int),
{
    if status == 400 || status == 405 || status == 406 || status == 411 || status == 413 || status
        == 415 || status == 422 {
        (ErrorCategory::InvalidRequest, false)
    } else if status == 401 {
        (ErrorCategory::Authentication, false)
    } else if status == 403 {
        (ErrorCategory::PermissionDenied, false)
    } else if status == 404 {
        (ErrorCategory::NotFound, false)
    } else if status == 408 || status == 504 {
        (ErrorCategory::Timeout, true)
    } else if status == 409 {
        (ErrorCategory::Conflict, false)
    } else if status == 429 {
        (ErrorCategory::RateLimited, true)
    } else if 500 <= status && status <= 503 {
        (ErrorCategory::Unavailable, true)
    } else {
        (ErrorCategory::Protocol, false)
    }
}

/// The error of a response with a status that is no success.
pub open spec fn status_error(status: u16) -> ErrorModel {
    let (category, retryable) = status_category(status as int);
    ErrorModel {
        retryable,
        code: Some(decimal(status as nat)),
        ..failure(
            category,
            "database HTTP request failed with status "@ + status_line(status),
        )
    }
}

/// The error of a response with a status that is no success.
pub fn map_http_status(status: u16) -> (result: ConnectorError)
    requires
        100 <= status <= 999,
    ensures
        result@ == status_error(status),
{
    let (category, retryable) = categorize_status(status as u64);
    let line = status_text(status);
    let message = crate::model::appended(
        "database HTTP request failed with status ",
        line.as_str(),
    );
    let code = decimal_text(status as u64);
    ConnectorError::new(category, message.as_str()).retryable(retryable).with_code(code.as_str())
}

/// What a response is read as: the error of its status, or the document of its body, null where
/// there is none.
pub open spec fn response_result(status: u16, body: Seq<u8>) -> Result<JsonModel, ErrorModel> {
    if !(200 <= status <= 299) {
        Err(status_error(status))
    } else if body.len() == 0 {
        Ok(JsonModel::Null)
    } else {
        match parsed_json(body) {
            Some(document) => Ok(document),
            None => Err(
                protocol_failure("database returned a response that was not valid JSON"@),
            ),
        }
    }
}

/// Reads a response.
pub fn read_response(status: u16, body: &Vec<u8>) -> (result: Result<Json, ConnectorError>)
    requires
        100 <= status <= 999,
    ensures
        crate::convert::is_json_result(result, response_result(status, body@)),
{
    if status < 200 || status > 299 {
        return Err(map_http_status(status));
    }
    if body.len() == 0 {
        return Ok(Json::Null);
    }
    match read_json(body.as_slice()) {
        Some(document) => Ok(document),
        None => Err(protocol("database returned a response that was not valid JSON")),
    }
}

/// How the transport failed.
#[derive(Debug, Clone, Copy, PartialEq, Eq, Structural)]
pub enum TransportFailure {
    Tls,
    Timeout,
    /// The connection could not be made, or the request not be sent.
    Unreachable,
    Decode,
    Other,
}

/// The error of a failure of the transport.
pub open spec fn transport_error(cause: TransportFailure) -> ErrorModel {
    match cause {
        TransportFailure::Tls => ErrorModel {
            phase: ErrorPhase::Tls,
            ..failure(ErrorCategory::Unavailable, "database TLS negotiation failed"@)
        },
        TransportFailure::Timeout => ErrorModel {
            retryable: true,
            ..failure(ErrorCategory::Timeout, "database HTTP request timed out"@)
        },
        TransportFailure::Unreachable => ErrorModel {
            retryable: true,
            ..failure(ErrorCategory::Unavailable, "database HTTP endpoint is unavailable"@)
        },
        TransportFailure::Decode => protocol_failure(
            "database HTTP response could not be decoded"@,
        ),
        TransportFailure::Other => failure(
            ErrorCategory::Internal,
            "database HTTP transport failed"@,
        ),
    }
}

/// The error of a failure of the transport.
pub fn map_transport_error(cause: TransportFailure) -> (result: ConnectorError)
    ensures
        result@ == transport_error(cause),
{
    match cause {
        TransportFailure::Tls => ConnectorError::new(
            ErrorCategory::Unavailable,
            "database TLS negotiation failed",
        ).with_phase(ErrorPhase::Tls),
        TransportFailure::Timeout => ConnectorError::new(
            ErrorCategory::Timeout,
            "database HTTP request timed out",
        ).retryable(true),
        TransportFailure::Unreachable => ConnectorError::new(
            ErrorCategory::Unavailable,
            "database HTTP endpoint is unavailable",
        ).retryable(true),
        TransportFailure::Decode => protocol("database HTTP response could not be decoded"),
        TransportFailure::Other => ConnectorError::new(
            ErrorCategory::Internal,
            "database HTTP transport failed",
        ),
    }
}

/// How long a request may take, in milliseconds: the requested time, the connection's timeout and
/// what is left until the deadline, whichever is shortest, and at least one.
pub open spec fn request_timeout(
    remaining_ms: u64,
    configured_ms: u64,
    requested_ms: Option<u64>,
) -> int {
    let asked = match requested_ms {
        Some(requested) if requested <= configured_ms => requested as int,
        _ => configured_ms as int,
    };
    let left = if asked <= remaining_ms {
        asked
    } else {
        remaining_ms as int
    };
    if left >= 1 {
        left
    } else {
        1
    }
}

/// How long a request may take, in milliseconds.
pub fn request_timeout_ms(
    remaining_ms: u64,
    profile: &ConnectionProfile,
    requested_ms: Option<u64>,
) -> (result: u64)
    ensures
        result == request_timeout(remaining_ms, profile.policy.timeout_ms, requested_ms),
{
    let configured: u64 = profile.policy.timeout_ms;
    let asked: u64 = match requested_ms {
        Some(requested) => if requested <= configured {
            requested
        } else {
            configured
        },
        None => configured,
    };
    let left: u64 = if asked <= remaining_ms {
        asked
    } else {
        remaining_ms
    };
    if left >= 1 {
        left
    } else {
        1
    }
}

/// The request of an API path under the endpoint of a profile.
pub open spec fn api_request(
    profile: ConnectionProfile,
    method: MethodModel,
    segments: Seq<Seq<char>>,
    query: Seq<(Seq<char>, Seq<char>)>,
    body: BodyModel,
) -> Result<RequestModel, ErrorModel> {
    match segments_result(profile.endpoint@, segments) {
        Err(error) => Err(error),
        Ok(url) => Ok(RequestModel { method, url, query, body, timeout_ms: None }),
    }
}

/// The request of an API path under the endpoint of a profile.
pub fn make_request(
    profile: &ConnectionProfile,
    method: HttpMethod,
    segments: &[&str],
    query: Vec<(String, String)>,
    body: HttpBody,
) -> (result: Result<HttpRequest, ConnectorError>)
    ensures
        is_request_result(
            result,
            api_request(*profile, method@, names_of(segments@), pairs(query@), body@),
        ),
{
    match api_url(profile, segments) {
        Err(error) => Err(error),
        Ok(url) => Ok(HttpRequest { method, url, query, body, timeout_ms: None }),
    }
}

/// Whether optional requests are what is expected of them.
pub open spec fn is_next_request(
    result: Result<Option<HttpRequest>, ConnectorError>,
    expected: Result<Option<RequestModel>, ErrorModel>,
) -> bool {
    match (result, expected) {
        (Ok(Some(request)), Ok(Some(wanted))) => request@ == wanted,
        (Ok(None), Ok(None)) => true,
        (Err(error), Err(wanted)) => error@ == wanted,
        _ => false,
    }
}

/// Query parameters with one more, where there is a value for it.
pub open spec fn with_parameter(
    query: Seq<(Seq<char>, Seq<char>)>,
    name: Seq<char>,
    value: Option<Seq<char>>,
) -> Seq<(Seq<char>, Seq<char>)> {
    match value {
        Some(value) => query.push((name, value)),
        None => query,
    }
}

/// Adds a query parameter, where there is a value for it.
pub fn add_parameter(query: &mut Vec<(String, String)>, name: &str, value: Option<&str>)
    ensures
        pairs(final(query)@) == with_parameter(pairs(old(query)@), name@, optional_str(value)),
{
    match value {
        Some(value) => {
            query.push((name.to_owned(), value.to_owned()));
        },
        None => {},
    }
}

/// The text of the first pair of a name.
pub fn find_pair<'a>(list: &'a Vec<(String, String)>, name: &str) -> (result: Option<&'a str>)
    ensures
        optional_str(result) == field_named(pairs(list@), name@),
{
    let ghost all = pairs(list@);
    let mut i: usize = 0;
    assert(all.subrange(0, all.len() as int) =~= all);
    while i < list.len()
        invariant
            i <= list@.len(),
            all == pairs(list@),
            all.len() == list@.len(),
            field_named(all, name@) == field_named(
                all.subrange(i as int, all.len() as int),
                name@,
            ),
        decreases list@.len() - i,
    {
        let ghost rest = all.subrange(i as int, all.len() as int);
        assert(rest[0] == all[i as int]);
        assert(rest.subrange(1, rest.len() as int) =~= all.subrange(i + 1, all.len() as int));
        if same(list[i].0.as_str(), name) {
            return Some(list[i].1.as_str());
        }
        i = i + 1;
    }
    None
}

/// A request whose query is begun even where no parameter follows.
pub open spec fn with_query_begun(request: RequestModel) -> RequestModel {
    if request.query.len() == 0 {
        RequestModel { url: request.url + "?"@, ..request }
    } else {
        request
    }
}

/// An expected request whose query is begun even where no parameter follows.
pub open spec fn begun_result(expected: Result<RequestModel, ErrorModel>) -> Result<
    RequestModel,
    ErrorModel,
> {
    match expected {
        Err(error) => Err(error),
        Ok(request) => Ok(with_query_begun(request)),
    }
}

/// Begins the query of a request even where no parameter follows.
pub fn begin_query(request: Result<HttpRequest, ConnectorError>) -> (result: Result<
    HttpRequest,
    ConnectorError,
>)
    ensures
        match (request, result) {
            (Ok(request), Ok(begun)) => begun@ == with_query_begun(request@),
            (Err(error), Err(given)) => error@ == given@,
            _ => false,
        },
{
    match request {
        Err(error) => Err(error),
        Ok(request) => {
            let mut request = request;
            if request.query.len() == 0 {
                request.url = appended(request.url.as_str(), "?");
            }
            Ok(request)
        },
    }
}

/// The URL of path segments that are appended one after the other, each to what the ones before it
/// have led to.
pub open spec fn walked_result(base: EndpointModel, segments: Seq<Seq<char>>) -> Result<
    Seq<char>,
    ErrorModel,
>
    decreases segments.len(),
{
    if segments.len() == 0 {
        Ok(base.text)
    } else {
        match segments_result(base, seq![segments[0]]) {
            Err(error) => Err(error),
            Ok(url) => match url_parts(url) {
                None => Err(invalid_request("endpoint URL cannot contain API paths"@)),
                Some(next) => walked_result(next, segments.subrange(1, segments.len() as int)),
            },
        }
    }
}

/// Appends the path segments from one on to a base URL, one after the other.
pub fn walk_segments(base: &Endpoint, segments: &Vec<String>, from: usize) -> (result: Result<
    String,
    ConnectorError,
>)
    requires
        from <= segments@.len(),
    ensures
        is_text_result(
            result,
            walked_result(base@, texts(segments@).subrange(from as int, segments@.len() as int)),
        ),
    decreases segments@.len() - from,
{
    if from == segments.len() {
        return Ok(base.text.clone());
    }
    let ghost rest = texts(segments@).subrange(from as int, segments@.len() as int);
    let mut one: Vec<String> = Vec::new();
    one.push(segments[from].clone());
    assert(texts(one@) =~= seq![rest[0]]);
    assert(rest.subrange(1, rest.len() as int) =~= texts(segments@).subrange(
        from + 1,
        segments@.len() as int,
    ));
    match append_segments(base, &one) {
        Err(error) => Err(error),
        Ok(url) => match parse_endpoint(url.as_str()) {
            None => Err(invalid("endpoint URL cannot contain API paths")),
            Some(next) => walk_segments(&next, segments, from + 1),
        },
    }
}

} // verus!
