//! Native requests: a JSON document that holds an HTTP request.
use crate::encoding::optional_document;
use crate::fields::{
    field_texts, fields_document, holds_texts, is_text_record, member_texts, read_fields,
    read_values,
};
use crate::http::common::is_one_of;
use crate::http::transport::{
    begin_query, group_pairs, is_request_result, native_url, native_url_result, pairs,
    with_query_begun, BodyModel, HttpBody, HttpMethod, HttpRequest, MethodModel, RequestModel,
};
use crate::json::{as_text, member, optional_json, text_of};
use crate::model::{
    failure, invalid, invalid_request, ConnectionProfile, ConnectorError, ErrorCategory, ErrorModel,
};
use crate::text::{
    begins_with, contains_text, has_char, names_of, occurs_in, same, split, split_on, starts_with,
    texts,
};
use crate::value::{members, Json, JsonModel};
use vstd::prelude::*;
use vstd::utf8::encode_utf8;

verus! {

broadcast use {crate::text::group_texts, crate::value::group_models};

/// A request that a caller wrote.
#[derive(Debug)]
pub struct NativeHttpEnvelope {
    pub method: HttpMethod,
    pub path: String,
    pub query: Vec<(String, String)>,
    pub body: Option<Json>,
}

/// What a [`NativeHttpEnvelope`] is.
pub struct EnvelopeModel {
    pub method: MethodModel,
    pub path: Seq<char>,
    pub query: Seq<(Seq<char>, Seq<char>)>,
    pub body: Option<JsonModel>,
}

impl View for NativeHttpEnvelope {
    type V = EnvelopeModel;

    open spec fn view(&self) -> EnvelopeModel {
        EnvelopeModel {
            method: self.method@,
            path: self.path@,
            query: pairs(self.query@),
            body: optional_document(self.body),
        }
    }
}

/// The pairs of texts that the members of an object are, where all of them are texts.
pub open spec fn text_members(list: Seq<(Seq<char>, JsonModel)>) -> Option<
    Seq<(Seq<char>, Seq<char>)>,
> {
    if forall|i: int| 0 <= i < list.len() ==> (#[trigger] list[i]).1 is Text {
        Some(Seq::new(list.len(), |i: int| (list[i].0, list[i].1->Text_0)))
    } else {
        None
    }
}

/// The pairs of texts that the members of an object are.
fn read_text_members(list: &Vec<(String, Json)>) -> (result: Option<Vec<(String, String)>>)
    ensures
        match (result, text_members(members(list@))) {
            (Some(found), Some(wanted)) => pairs(found@) == wanted,
            (None, None) => true,
            _ => false,
        },
{
    let ghost all = members(list@);
    let mut result: Vec<(String, String)> = Vec::new();
    let mut i: usize = 0;
    while i < list.len()
        invariant
            i <= list@.len(),
            all == members(list@),
            result@.len() == i,
            forall|j: int| 0 <= j < i ==> (#[trigger] all[j]).1 is Text,
            forall|j: int|
                0 <= j < i ==> (#[trigger] result@[j]).0@ == all[j].0 && result@[j].1@
                    == all[j].1->Text_0,
        decreases list@.len() - i,
    {
        assert(all[i as int] == (list@[i as int].0@, list@[i as int].1@));
        match &list[i].1 {
            Json::Text(text) => {
                result.push((list[i].0.clone(), text.clone()));
            },
            _ => {
                return None;
            },
        }
        i = i + 1;
    }
    assert(pairs(result@) =~= Seq::new(all.len(), |i: int| (all[i].0, all[i].1->Text_0)));
    Some(result)
}

/// The method, the path, the query and the body of a request document. The query may be absent;
/// a body that is null is none.
pub open spec fn envelope_parts(document: JsonModel) -> Option<
    (Seq<char>, Seq<char>, Seq<(Seq<char>, Seq<char>)>, Option<JsonModel>),
> {
    let query = match member(document, "query"@) {
        None => Some(Seq::empty()),
        Some(JsonModel::Object(list)) => text_members(list),
        Some(_) => None,
    };
    let body = match member(document, "body"@) {
        Some(JsonModel::Null) => None,
        body => body,
    };
    match (
        text_of(member(document, "method"@)),
        text_of(member(document, "path"@)),
        query,
    ) {
        (Some(method), Some(path), Some(query)) => Some((method, path, query, body)),
        _ => None,
    }
}

/// The query of a request document.
fn read_query(part: Option<&Json>) -> (result: Option<Vec<(String, String)>>)
    ensures
        match (
            result,
            match optional_json(part) {
                None => Some(Seq::empty()),
                Some(JsonModel::Object(list)) => text_members(list),
                Some(_) => None,
            },
        ) {
            (Some(found), Some(wanted)) => pairs(found@) == wanted,
            (None, None) => true,
            _ => false,
        },
{
    broadcast use group_pairs;

    match part {
        None => Some(Vec::new()),
        Some(Json::Object(list)) => read_text_members(list),
        Some(_) => None,
    }
}

/// Whether a path begins with another one, segment for segment.
pub open spec fn is_under(path: Seq<char>, prefix: Seq<char>) -> bool {
    ||| prefix == "/"@
    ||| path == prefix
    ||| begins_with(path, prefix.push('/'))
}

/// Whether a path begins with another one, segment for segment.
pub fn path_has_prefix(path: &str, prefix: &str) -> (result: bool)
    ensures
        result == is_under(path@, prefix@),
{
    if same(prefix, "/") || same(path, prefix) {
        return true;
    }
    let mut start = prefix.to_owned();
    start.push('/');
    starts_with(path, start.as_str())
}

/// Whether a path begins with one of some others.
pub open spec fn is_under_any(path: Seq<char>, prefixes: Seq<Seq<char>>) -> bool {
    exists|i: int| 0 <= i < prefixes.len() && is_under(path, #[trigger] prefixes[i])
}

/// Whether a path begins with one of some others.
fn has_any_prefix(path: &str, prefixes: &[&str]) -> (result: bool)
    ensures
        result == is_under_any(path@, names_of(prefixes@)),
{
    let ghost all = names_of(prefixes@);
    let mut i: usize = 0;
    while i < prefixes.len()
        invariant
            i <= prefixes@.len(),
            all == names_of(prefixes@),
            forall|j: int| 0 <= j < i ==> !is_under(path@, #[trigger] all[j]),
        decreases prefixes@.len() - i,
    {
        if path_has_prefix(path, prefixes[i]) {
            assert(is_under(path@, all[i as int]));
            return true;
        }
        i = i + 1;
    }
    false
}

/// Whether a path is absolute, stays where it is, and is nothing but a path.
pub open spec fn is_plain_path(path: Seq<char>) -> bool {
    &&& begins_with(path, "/"@)
    &&& !begins_with(path, "//"@)
    &&& !occurs_in(".."@, path)
    &&& !path.contains('\\')
    &&& !path.contains('?')
    &&& !path.contains('#')
}

/// Whether a character may stand in the name of a method.
pub open spec fn is_token_char(c: char) -> bool {
    ||| crate::http::common::is_letter(c)
    ||| crate::text::is_digit(c)
    ||| "!#$%&'*+-.^_`|~"@.contains(c)
}

/// Whether a text is the name of a method.
pub open spec fn is_token(text: Seq<char>) -> bool {
    text.len() > 0 && forall|i: int| 0 <= i < text.len() ==> is_token_char(#[trigger] text[i])
}

/// `http::Method::from_bytes`: the names that it accepts, which are the tokens of HTTP.
#[verifier::external_body]
fn accepts_method(text: &str) -> (result: bool)
    ensures
        result == is_token(text@),
{
    reqwest::Method::from_bytes(text.as_bytes()).is_ok()
}

/// The method of a name.
pub open spec fn method_named(name: Seq<char>) -> MethodModel {
    if name == "GET"@ {
        MethodModel::Get
    } else if name == "HEAD"@ {
        MethodModel::Head
    } else if name == "POST"@ {
        MethodModel::Post
    } else if name == "PUT"@ {
        MethodModel::Put
    } else if name == "DELETE"@ {
        MethodModel::Delete
    } else {
        MethodModel::Other(name)
    }
}

/// The method of a name.
fn read_method(name: &str) -> (result: HttpMethod)
    ensures
        result@ == method_named(name@),
{
    if same(name, "GET") {
        HttpMethod::Get
    } else if same(name, "HEAD") {
        HttpMethod::Head
    } else if same(name, "POST") {
        HttpMethod::Post
    } else if same(name, "PUT") {
        HttpMethod::Put
    } else if same(name, "DELETE") {
        HttpMethod::Delete
    } else {
        HttpMethod::Other(name.to_owned())
    }
}

/// Whether a method may be used to read.
pub open spec fn is_reading(method: MethodModel) -> bool {
    method is Get || method is Head || method is Post
}

/// The request that a document holds: a plain path under one of the allowed ones and, where it
/// must only read, a method that reads.
pub open spec fn envelope_result(
    document: Option<JsonModel>,
    read_only: bool,
    allowed_prefixes: Seq<Seq<char>>,
) -> Result<EnvelopeModel, ErrorModel> {
    let parts = match document {
        Some(document) => envelope_parts(document),
        None => None,
    };
    match parts {
        None => Err(
            invalid_request("native HTTP statement must be a JSON request envelope"@),
        ),
        Some((method, path, query, body)) => if !is_plain_path(path) {
            Err(invalid_request("native request path is invalid"@))
        } else if !is_under_any(path, allowed_prefixes) {
            Err(
                failure(
                    ErrorCategory::PermissionDenied,
                    "native request path is outside this connector's data API"@,
                ),
            )
        } else if !is_token(method) {
            Err(invalid_request("native request method is invalid"@))
        } else if read_only && !is_reading(method_named(method)) {
            Err(
                failure(
                    ErrorCategory::PermissionDenied,
                    "native query does not allow a mutating HTTP method"@,
                ),
            )
        } else {
            Ok(EnvelopeModel { method: method_named(method), path, query, body })
        },
    }
}

/// Whether a request document is read as expected.
pub open spec fn is_envelope_result(
    result: Result<NativeHttpEnvelope, ConnectorError>,
    expected: Result<EnvelopeModel, ErrorModel>,
) -> bool {
    match (result, expected) {
        (Ok(envelope), Ok(wanted)) => envelope@ == wanted,
        (Err(error), Err(wanted)) => error@ == wanted,
        _ => false,
    }
}

/// Reads the request that a document holds.
pub fn accept_envelope(
    document: Option<&Json>,
    read_only: bool,
    allowed_prefixes: &[&str],
) -> (result: Result<NativeHttpEnvelope, ConnectorError>)
    ensures
        is_envelope_result(
            result,
            envelope_result(optional_json(document), read_only, names_of(allowed_prefixes@)),
        ),
{
    let malformed = "native HTTP statement must be a JSON request envelope";
    let document = match document {
        None => {
            return Err(invalid(malformed));
        },
        Some(document) => document,
    };
    let (method, path, query) = match (
        as_text(document.get("method")),
        as_text(document.get("path")),
        read_query(document.get("query")),
    ) {
        (Some(method), Some(path), Some(query)) => (method, path, query),
        _ => {
            return Err(invalid(malformed));
        },
    };
    let body = match document.get("body") {
        None => None,
        Some(Json::Null) => None,
        Some(body) => Some(body.copy()),
    };
    if !starts_with(path, "/") || starts_with(path, "//") || contains_text(path, "..") || has_char(
        path,
        '\\',
    ) || has_char(path, '?') || has_char(path, '#') {
        return Err(invalid("native request path is invalid"));
    }
    if !has_any_prefix(path, allowed_prefixes) {
        return Err(
            ConnectorError::new(
                ErrorCategory::PermissionDenied,
                "native request path is outside this connector's data API",
            ),
        );
    }
    if !accepts_method(method) {
        return Err(invalid("native request method is invalid"));
    }
    let method = read_method(method);
    if read_only && !matches!(method, HttpMethod::Get | HttpMethod::Head | HttpMethod::Post) {
        return Err(
            ConnectorError::new(
                ErrorCategory::PermissionDenied,
                "native query does not allow a mutating HTTP method",
            ),
        );
    }
    Ok(NativeHttpEnvelope { method, path: path.to_owned(), query, body })
}

/// The document of the request that a text holds: an object of the fields that it has, each at most
/// once, with nothing but texts in its query.
pub open spec fn envelope_document(bytes: Seq<u8>) -> Option<JsonModel> {
    match field_texts(bytes, names_of(["method", "path", "query", "body"]@)) {
        None => None,
        Some(fields) => if exists|i: int|
            0 <= i < fields.len() && (#[trigger] fields[i]).0 == "query"@ && !is_text_record(
                fields[i].1,
            ) {
            None
        } else {
            fields_document(fields)
        },
    }
}

/// Reads the document of the request that a text holds.
fn read_envelope(bytes: &[u8]) -> (result: Option<Json>)
    ensures
        optional_document(result) == envelope_document(bytes@),
{
    let fields = match read_fields(bytes, &["method", "path", "query", "body"]) {
        None => {
            return None;
        },
        Some(fields) => fields,
    };
    let ghost all = member_texts(fields@);
    let mut i: usize = 0;
    while i < fields.len()
        invariant
            i <= fields@.len(),
            all == member_texts(fields@),
            field_texts(bytes@, names_of(["method", "path", "query", "body"]@)) == Some(all),
            forall|j: int|
                0 <= j < i && (#[trigger] all[j]).0 == "query"@ ==> is_text_record(all[j].1),
        decreases fields@.len() - i,
    {
        assert(all[i as int] == (fields@[i as int].0@, fields@[i as int].1@));
        if same(fields[i].0.as_str(), "query") && !holds_texts(&fields[i].1) {
            return None;
        }
        i = i + 1;
    }
    read_values(&fields)
}

/// Reads the request that a statement holds.
pub fn parse_native_envelope(statement: &str, read_only: bool, allowed_prefixes: &[&str]) -> (result:
    Result<NativeHttpEnvelope, ConnectorError>)
    ensures
        is_envelope_result(
            result,
            envelope_result(
                envelope_document(encode_utf8(statement@)),
                read_only,
                names_of(allowed_prefixes@),
            ),
        ),
{
    let document = read_envelope(statement.as_bytes());
    match &document {
        Some(document) => accept_envelope(Some(document), read_only, allowed_prefixes),
        None => accept_envelope(None, read_only, allowed_prefixes),
    }
}

/// The request to send for one that a caller wrote.
pub open spec fn native_result(profile: ConnectionProfile, envelope: EnvelopeModel) -> Result<
    RequestModel,
    ErrorModel,
> {
    match native_url_result(profile, envelope.path) {
        Err(error) => Err(error),
        Ok(url) => Ok(
            with_query_begun(
                RequestModel {
                    method: envelope.method,
                    url,
                    query: envelope.query,
                    body: match envelope.body {
                        Some(document) => BodyModel::Json(document),
                        None => BodyModel::Empty,
                    },
                    timeout_ms: None,
                },
            ),
        ),
    }
}

/// The request to send for one that a caller wrote.
pub fn native_request(profile: &ConnectionProfile, envelope: NativeHttpEnvelope) -> (result: Result<
    HttpRequest,
    ConnectorError,
>)
    ensures
        is_request_result(result, native_result(*profile, envelope@)),
{
    let url = match native_url(profile, envelope.path.as_str()) {
        Err(error) => {
            return Err(error);
        },
        Ok(url) => url,
    };
    let body = match envelope.body {
        Some(document) => HttpBody::Json(document),
        None => HttpBody::Empty,
    };
    begin_query(
        Ok(
            HttpRequest {
                method: envelope.method,
                url,
                query: envelope.query,
                body,
                timeout_ms: None,
            },
        ),
    )
}

/// A native request that must only read is sent with a method that reads, to a plain path under
/// one of the allowed ones.
pub proof fn lemma_native_reads_stay_inside(
    document: Option<JsonModel>,
    allowed_prefixes: Seq<Seq<char>>,
)
    requires
        envelope_result(document, true, allowed_prefixes) is Ok,
    ensures
        ({
            let envelope = envelope_result(document, true, allowed_prefixes)->Ok_0;
            &&& is_reading(envelope.method)
            &&& is_plain_path(envelope.path)
            &&& is_under_any(envelope.path, allowed_prefixes)
        }),
{
}

/// The parts of a path that are not empty.
pub open spec fn filled_parts(parts: Seq<Seq<char>>) -> Seq<Seq<char>>
    decreases parts.len(),
{
    if parts.len() == 0 {
        Seq::empty()
    } else {
        let before = filled_parts(parts.drop_last());
        if parts.last().len() == 0 {
            before
        } else {
            before.push(parts.last())
        }
    }
}

/// The segments of a path.
pub open spec fn path_segments(path: Seq<char>) -> Seq<Seq<char>> {
    filled_parts(split_on(path, '/'))
}

/// The segments of a path.
pub fn segments_of(path: &str) -> (result: Vec<String>)
    ensures
        texts(result@) == path_segments(path@),
{
    let parts = split(path, '/');
    let ghost all = texts(parts@);
    let mut result: Vec<String> = Vec::new();
    let mut i: usize = 0;
    assert(all.subrange(0, 0) =~= Seq::<Seq<char>>::empty());
    while i < parts.len()
        invariant
            i <= parts@.len(),
            all == texts(parts@),
            texts(result@) == filled_parts(all.subrange(0, i as int)),
        decreases parts@.len() - i,
    {
        assert(all.subrange(0, i + 1).drop_last() =~= all.subrange(0, i as int));
        if !parts[i].as_str().is_empty() {
            result.push(parts[i].clone());
        }
        i = i + 1;
    }
    assert(all.subrange(0, i as int) =~= all);
    result
}

/// Whether some text is one of others.
pub open spec fn any_of(list: Seq<Seq<char>>, others: Seq<Seq<char>>) -> bool {
    exists|i: int| 0 <= i < list.len() && others.contains(#[trigger] list[i])
}

/// Whether some text is one of others.
pub fn some_is_one_of(list: &Vec<String>, others: &[&str]) -> (result: bool)
    ensures
        result == any_of(texts(list@), names_of(others@)),
{
    let ghost all = texts(list@);
    let mut i: usize = 0;
    while i < list.len()
        invariant
            i <= list@.len(),
            all == texts(list@),
            forall|j: int| 0 <= j < i ==> !names_of(others@).contains(#[trigger] all[j]),
        decreases list@.len() - i,
    {
        assert(all[i as int] == list@[i as int]@);
        if is_one_of(list[i].as_str(), others) {
            return true;
        }
        i = i + 1;
    }
    false
}

} // verus!
