//! Splunk.
use crate::budget::smaller;
use crate::convert::{
    is_json_list_result, is_json_result, json_record, json_to_record, record_json, record_to_json,
};
use crate::encoding::{json_text, write_json};
use crate::http::auth::{client_plan, client_result, AuthStyle, ClientPlan};
use crate::http::common::{
    affected_error, asks_elsewhere, bounded_catalog, bounded_result, byte_limit, cursor_result,
    effective_bytes, effective_rows, ensure_language, find_list, find_nested, find_text_option,
    finish_prefix, finish_write, finished_prefix, finished_write, is_elsewhere, is_page_result,
    is_records_result, language_error, lemma_cursor_round_trip, list_in, mismatch, mismatch_error,
    nested, parameters_error, parse_cursor_offset, profile_error, rows_result, target_error,
    text_option, validate_affected, validate_native_parameters, validate_profile, validate_target,
};
use crate::http::elastic_query::{lines_text, write_lines};
use crate::http::pinecone_host::is_endpoint_result;
use crate::http::splunk_query::{
    read_spl, result_record, search_query, spl_error, splunk_read_spl, splunk_result_record,
    splunk_search_request, validate_read_only_spl, QueryModel, SplunkQuery,
};
use crate::http::transport::{
    add_parameter, api_request, append_segments, group_pairs, is_next_request, is_request_result,
    make_request, owned_texts, pairs, parse_endpoint, plain_request, request_timeout,
    request_timeout_ms, segments_result, url_parts, with_parameter, BodyModel, EndpointModel,
    HttpBody, HttpMethod, HttpRequest, MethodModel, RequestModel,
};
use crate::json::{
    as_signed, as_text, as_unsigned, member, pointer_target, signed_of, text, text_of, unsigned_of,
    JsonObject,
};
use crate::model::{
    appended, covers, entities, error_of, failing, failure, first_error, invalid, invalid_request,
    is_description_result, is_info_result, is_result_of, is_text_result, protocol, protocol_failure,
    unsupported, unsupported_request, AuthKind, Capability, CatalogEntity, CatalogPage,
    CatalogQuery, ConnectionInfo, ConnectionProfile, ConnectorContext, ConnectorError,
    ConnectorManifest, ConnectorStatus, DataOperation, DescriptionModel, Endpoint,
    EntityDescription, EntityModel, ErrorCategory, ErrorModel, InfoModel, InsertRequest,
    OperationResult, PageModel, Product, ResultModel, SecretMaterial,
};
use crate::secret::{filled, filled_field};
use crate::text::{
    borrowed, byte_count, byte_length, clone_optional, contains_text, decimal, decimal_text,
    names_of, occurs_in, optional_str, optional_text, same, signed_decimal, signed_decimal_text,
    texts, trim, trimmed,
};
use crate::value::{documents, records, DbRecord, Json, JsonModel, RecordModel};
use vstd::prelude::*;

verus! {

broadcast use {
    crate::text::group_texts,
    crate::value::group_models,
    crate::model::group_entities,
    group_pairs,
};

/// How the answer to a request is read.
#[derive(Debug, Clone, Copy, PartialEq, Eq, Structural)]
pub enum SplunkReading {
    /// A search for at most `limit` results, by the management API.
    Search { limit: usize },
    /// Events for the event collector.
    Events { count: u64 },
}

/// A request, and how its answer is read.
#[derive(Debug)]
pub struct SplunkCall {
    pub request: HttpRequest,
    pub reading: SplunkReading,
}

/// Whether a request is what is expected of it.
pub open spec fn is_call_result(
    result: Result<SplunkCall, ConnectorError>,
    expected: Result<(RequestModel, SplunkReading), ErrorModel>,
) -> bool {
    match (result, expected) {
        (Ok(call), Ok((wanted, reading))) => call.request@ == wanted && call.reading == reading,
        (Err(error), Err(wanted)) => error@ == wanted,
        _ => false,
    }
}

/// A number of milliseconds in whole seconds, rounded up.
pub open spec fn whole_seconds(milliseconds: int) -> int {
    (milliseconds + 999) / 1000
}

/// The request of a search: only queries that read, and one result more than is shown.
pub open spec fn search_call(
    context: ConnectorContext,
    profile: ConnectionProfile,
    query: QueryModel,
    requested: u32,
    timeout_ms: Option<u64>,
    remaining_ms: u64,
) -> Result<(RequestModel, SplunkReading), ErrorModel> {
    if trimmed(query.spl).len() == 0 {
        Err(invalid_request("SPL query must not be empty"@))
    } else {
        match spl_error(query.spl) {
            Some(error) => Err(error),
            None => match rows_result(context, profile, requested) {
                Err(error) => Err(error),
                Ok(limit) => {
                    let timeout = request_timeout(
                        remaining_ms,
                        profile.policy.timeout_ms,
                        timeout_ms,
                    );
                    let form = Seq::empty().push(("search"@, query.spl)).push(
                        ("exec_mode"@, "oneshot"@),
                    ).push(("output_mode"@, "json"@)).push(
                        ("count"@, decimal((limit + 1) as nat)),
                    ).push(("max_time"@, decimal(whole_seconds(timeout) as nat)));
                    match api_request(
                        profile,
                        MethodModel::Post,
                        names_of(["services", "search", "jobs"]@),
                        Seq::empty(),
                        BodyModel::Form(
                            with_parameter(
                                with_parameter(form, "earliest_time"@, query.earliest),
                                "latest_time"@,
                                query.latest,
                            ),
                        ),
                    ) {
                        Err(error) => Err(error),
                        Ok(request) => Ok(
                            (
                                RequestModel { timeout_ms: Some(timeout as u64), ..request },
                                SplunkReading::Search { limit: limit as usize },
                            ),
                        ),
                    }
                },
            },
        }
    }
}

/// Makes the request of a search.
pub fn run_search(
    context: &ConnectorContext,
    profile: &ConnectionProfile,
    query: &SplunkQuery,
    requested: u32,
    timeout_ms: Option<u64>,
    remaining_ms: u64,
) -> (result: Result<SplunkCall, ConnectorError>)
    ensures
        is_call_result(
            result,
            search_call(*context, *profile, query@, requested, timeout_ms, remaining_ms),
        ),
{
    let trimmed = trim(query.spl.as_str());
    if trimmed.as_str().is_empty() {
        return Err(invalid("SPL query must not be empty"));
    }
    match validate_read_only_spl(query.spl.as_str()) {
        Err(error) => {
            return Err(error);
        },
        Ok(()) => {},
    }
    let limit: usize = match effective_rows(context, profile, requested) {
        Err(error) => {
            return Err(error);
        },
        Ok(limit) => limit,
    };
    let timeout: u64 = request_timeout_ms(remaining_ms, profile, timeout_ms);
    let seconds: u64 = if timeout % 1000 == 0 {
        timeout / 1000
    } else {
        timeout / 1000 + 1
    };
    let mut form: Vec<(String, String)> = Vec::new();
    form.push(("search".to_owned(), query.spl.clone()));
    form.push(("exec_mode".to_owned(), "oneshot".to_owned()));
    form.push(("output_mode".to_owned(), "json".to_owned()));
    form.push(("count".to_owned(), decimal_text(limit as u64 + 1)));
    form.push(("max_time".to_owned(), decimal_text(seconds)));
    add_parameter(&mut form, "earliest_time", borrowed(&query.earliest));
    add_parameter(&mut form, "latest_time", borrowed(&query.latest));
    match make_request(
        profile,
        HttpMethod::Post,
        &["services", "search", "jobs"],
        Vec::new(),
        HttpBody::Form(form),
    ) {
        Err(error) => Err(error),
        Ok(made) => {
            let mut request = made;
            request.timeout_ms = Some(timeout);
            Ok(SplunkCall { request, reading: SplunkReading::Search { limit } })
        },
    }
}

/// The URL that another becomes with a port.
pub uninterp spec fn url_with_port(text: Seq<char>, port: u16) -> Option<Seq<char>>;

/// `url::Url::set_port` on a parsed URL; none where the text is no URL or can have no port.
#[verifier::external_body]
fn replace_port(text: &str, port: u16) -> (result: Option<String>)
    ensures
        optional_text(result) == url_with_port(text@, port),
{
    let mut url = url::Url::parse(text).ok()?;
    url.set_port(Some(port)).ok()?;
    Some(url.into())
}

/// The base URL of the event collector: the one that the connection sets, or the endpoint with the
/// collector's port in place of the management port.
pub open spec fn collector_base(profile: ConnectionProfile) -> Result<EndpointModel, ErrorModel> {
    match text_option(profile, "hec_endpoint"@) {
        Some(text) => match url_parts(text) {
            None => Err(invalid_request("hec_endpoint is not a valid URL"@)),
            Some(url) => if profile.tls.enabled && url.scheme != "https"@ {
                Err(invalid_request("HEC endpoint is not HTTPS"@))
            } else {
                Ok(url)
            },
        },
        None => if profile.endpoint.port == Some(8089u16) {
            let moved = match url_with_port(profile.endpoint.text@, 8088) {
                Some(text) => url_parts(text),
                None => None,
            };
            match moved {
                Some(url) => Ok(url),
                None => Err(invalid_request("could not derive HEC port"@)),
            }
        } else {
            Ok(profile.endpoint@)
        },
    }
}

/// The base URL of the event collector where the connection sets one.
pub fn accept_collector(tls: bool, url: Option<Endpoint>) -> (result: Result<
    Endpoint,
    ConnectorError,
>)
    ensures
        is_endpoint_result(
            result,
            match url {
                None => Err(invalid_request("hec_endpoint is not a valid URL"@)),
                Some(url) => if tls && url.scheme@ != "https"@ {
                    Err(invalid_request("HEC endpoint is not HTTPS"@))
                } else {
                    Ok(url@)
                },
            },
        ),
{
    match url {
        None => Err(invalid("hec_endpoint is not a valid URL")),
        Some(url) => {
            if tls && !same(url.scheme.as_str(), "https") {
                return Err(invalid("HEC endpoint is not HTTPS"));
            }
            Ok(url)
        },
    }
}

/// The URL of a path of the event collector.
pub open spec fn collector_url(profile: ConnectionProfile, path: Seq<Seq<char>>) -> Result<
    Seq<char>,
    ErrorModel,
> {
    match collector_base(profile) {
        Err(error) => Err(error),
        Ok(base) => segments_result(base, path),
    }
}

/// The URL of a path of the event collector.
fn splunk_hec_api_url(profile: &ConnectionProfile, path: &[&str]) -> (result: Result<
    String,
    ConnectorError,
>)
    ensures
        is_text_result(result, collector_url(*profile, names_of(path@))),
{
    let segments = owned_texts(path);
    match find_text_option(profile, "hec_endpoint") {
        Some(text) => {
            return match accept_collector(profile.tls.enabled, parse_endpoint(text)) {
                Err(error) => Err(error),
                Ok(base) => append_segments(&base, &segments),
            };
        },
        None => {},
    }
    let management = match profile.endpoint.port {
        Some(port) => port == 8089,
        None => false,
    };
    if !management {
        return append_segments(&profile.endpoint, &segments);
    }
    let moved = match replace_port(profile.endpoint.text.as_str(), 8088) {
        Some(text) => parse_endpoint(text.as_str()),
        None => None,
    };
    match moved {
        None => Err(invalid("could not derive HEC port")),
        Some(base) => append_segments(&base, &segments),
    }
}

/// The document of an event.
pub open spec fn event_document(profile: ConnectionProfile, target: Seq<char>, record: RecordModel) -> Result<
    JsonModel,
    ErrorModel,
> {
    match record_json(record) {
        Err(error) => Err(error),
        Ok(event) => {
            let start = Seq::empty().push(("event"@, event)).push(
                ("index"@, JsonModel::Text(target)),
            );
            let sourced = match text_option(profile, "source"@) {
                Some(source) => start.push(("source"@, JsonModel::Text(source))),
                None => start,
            };
            Ok(
                JsonModel::Object(
                    match text_option(profile, "sourcetype"@) {
                        Some(kind) => sourced.push(("sourcetype"@, JsonModel::Text(kind))),
                        None => sourced,
                    },
                ),
            )
        },
    }
}

/// The documents of events; the error of the first that has one.
pub open spec fn event_documents(
    profile: ConnectionProfile,
    target: Seq<char>,
    list: Seq<RecordModel>,
) -> Result<Seq<JsonModel>, ErrorModel>
    decreases list.len(),
{
    if list.len() == 0 {
        Ok(Seq::empty())
    } else {
        match event_documents(profile, target, list.drop_last()) {
            Err(error) => Err(error),
            Ok(before) => match event_document(profile, target, list.last()) {
                Err(error) => Err(error),
                Ok(document) => Ok(before.push(document)),
            },
        }
    }
}

/// Where some first events have an error, all of them have that one.
proof fn lemma_events_fail_early(
    profile: ConnectionProfile,
    target: Seq<char>,
    list: Seq<RecordModel>,
    count: int,
)
    requires
        0 <= count <= list.len(),
        event_documents(profile, target, list.subrange(0, count)) is Err,
    ensures
        event_documents(profile, target, list) == event_documents(
            profile,
            target,
            list.subrange(0, count),
        ),
    decreases list.len(),
{
    if count == list.len() {
        assert(list.subrange(0, count) =~= list);
    } else {
        assert(list.drop_last().subrange(0, count) =~= list.subrange(0, count));
        lemma_events_fail_early(profile, target, list.drop_last(), count);
    }
}

/// Writes the document of an event.
fn write_event(profile: &ConnectionProfile, target: &str, record: &DbRecord) -> (result: Result<
    Json,
    ConnectorError,
>)
    ensures
        is_json_result(result, event_document(*profile, target@, record@)),
{
    let event = match record_to_json(record) {
        Err(error) => {
            return Err(error);
        },
        Ok(event) => event,
    };
    let mut object = JsonObject::new();
    object.put("event", event);
    object.put("index", text(target));
    match find_text_option(profile, "source") {
        Some(source) => {
            object.put("source", text(source));
        },
        None => {},
    }
    match find_text_option(profile, "sourcetype") {
        Some(kind) => {
            object.put("sourcetype", text(kind));
        },
        None => {},
    }
    Ok(object.finish())
}

/// Writes the documents of events.
fn write_events(profile: &ConnectionProfile, target: &str, list: &Vec<DbRecord>) -> (result: Result<
    Vec<Json>,
    ConnectorError,
>)
    ensures
        is_json_list_result(result, event_documents(*profile, target@, records(list@))),
{
    let ghost all = records(list@);
    let mut items: Vec<Json> = Vec::new();
    let mut i: usize = 0;
    assert(all.subrange(0, 0) =~= Seq::<RecordModel>::empty());
    while i < list.len()
        invariant
            i <= list@.len(),
            all == records(list@),
            event_documents(*profile, target@, all.subrange(0, i as int)) == Ok::<
                Seq<JsonModel>,
                ErrorModel,
            >(documents(items@)),
        decreases list@.len() - i,
    {
        assert(all.subrange(0, i + 1).drop_last() =~= all.subrange(0, i as int));
        match write_event(profile, target, &list[i]) {
            Err(error) => {
                proof {
                    lemma_events_fail_early(*profile, target@, all, i + 1);
                }
                return Err(error);
            },
            Ok(document) => {
                items.push(document);
            },
        }
        i = i + 1;
    }
    assert(all.subrange(0, i as int) =~= all);
    Ok(items)
}

/// The request that appends events.
pub open spec fn insert_call(
    context: ConnectorContext,
    profile: ConnectionProfile,
    request: InsertRequest,
) -> Result<(RequestModel, SplunkReading), ErrorModel> {
    match target_error(request.target@) {
        Some(error) => Err(error),
        None => match affected_error(
            profile,
            profile.policy.max_affected,
            request.records@.len(),
        ) {
            Some(error) => Err(error),
            None => match event_documents(profile, request.target@, records(request.records@)) {
                Err(error) => Err(error),
                Ok(events) => match lines_text(events) {
                    None => Err(invalid_request("HEC event could not be encoded"@)),
                    Some(text) => if byte_length(text) > byte_limit(context, profile) {
                        Err(invalid_request("HEC batch exceeds the configured byte limit"@))
                    } else {
                        match collector_url(
                            profile,
                            names_of(["services", "collector", "event"]@),
                        ) {
                            Err(error) => Err(error),
                            Ok(url) => Ok(
                                (
                                    RequestModel {
                                        body: BodyModel::Text {
                                            content_type: "application/json"@,
                                            text,
                                        },
                                        ..plain_request(MethodModel::Post, url)
                                    },
                                    SplunkReading::Events { count: request.records@.len() as u64 },
                                ),
                            ),
                        }
                    },
                },
            },
        },
    }
}

/// Makes the request that appends events.
pub fn hec_insert(context: &ConnectorContext, profile: &ConnectionProfile, request: &InsertRequest) -> (result:
    Result<SplunkCall, ConnectorError>)
    ensures
        is_call_result(result, insert_call(*context, *profile, *request)),
{
    match validate_target(request.target.as_str()) {
        Err(error) => {
            return Err(error);
        },
        Ok(()) => {},
    }
    match validate_affected(profile, profile.policy.max_affected, request.records.len()) {
        Err(error) => {
            return Err(error);
        },
        Ok(()) => {},
    }
    let events = match write_events(profile, request.target.as_str(), &request.records) {
        Err(error) => {
            return Err(error);
        },
        Ok(events) => events,
    };
    let body = match write_lines(&events) {
        None => {
            return Err(invalid("HEC event could not be encoded"));
        },
        Some(body) => body,
    };
    if byte_count(body.as_str()) as u64 > effective_bytes(context, profile) {
        return Err(invalid("HEC batch exceeds the configured byte limit"));
    }
    match splunk_hec_api_url(profile, &["services", "collector", "event"]) {
        Err(error) => Err(error),
        Ok(url) => {
            let mut made = crate::http::transport::request(HttpMethod::Post, url);
            made.body = HttpBody::Text { content_type: "application/json".to_owned(), text: body };
            Ok(
                SplunkCall {
                    request: made,
                    reading: SplunkReading::Events { count: request.records.len() as u64 },
                },
            )
        },
    }
}

/// The error of an answer of the event collector that does not say that it took the events.
pub open spec fn events_error(answer: JsonModel) -> Option<ErrorModel> {
    match signed_of(member(answer, "code"@)) {
        None => Some(
            failure(
                ErrorCategory::UnknownOutcome,
                "Splunk HEC did not confirm the event batch outcome"@,
            ),
        ),
        Some(code) => if code == 0 {
            None
        } else {
            Some(
                ErrorModel {
                    code: Some(signed_decimal(code as int)),
                    ..protocol_failure("Splunk HEC rejected the event batch"@)
                },
            )
        },
    }
}

/// Refuses an answer of the event collector that does not say that it took the events.
pub fn ensure_hec_success(answer: &Json) -> (result: Result<(), ConnectorError>)
    ensures
        error_of(result) == events_error(answer@),
{
    match as_signed(answer.get("code")) {
        None => Err(
            ConnectorError::new(
                ErrorCategory::UnknownOutcome,
                "Splunk HEC did not confirm the event batch outcome",
            ),
        ),
        Some(code) => {
            if code == 0 {
                return Ok(());
            }
            let number = signed_decimal_text(code);
            Err(protocol("Splunk HEC rejected the event batch").with_code(number.as_str()))
        },
    }
}

/// The error of an answer of the event collector that does not say that it is healthy.
pub open spec fn health_error(answer: JsonModel) -> Option<ErrorModel> {
    match signed_of(member(answer, "code"@)) {
        None => Some(
            protocol_failure("Splunk HEC health response omitted its status code"@),
        ),
        Some(code) => if code == 17 {
            None
        } else {
            Some(
                ErrorModel {
                    retryable: true,
                    code: Some(signed_decimal(code as int)),
                    ..failure(
                        ErrorCategory::Unavailable,
                        "Splunk HEC endpoint is not healthy"@,
                    )
                },
            )
        },
    }
}

/// Refuses an answer of the event collector that does not say that it is healthy.
pub fn ensure_hec_healthy(answer: &Json) -> (result: Result<(), ConnectorError>)
    ensures
        error_of(result) == health_error(answer@),
{
    match as_signed(answer.get("code")) {
        None => Err(protocol("Splunk HEC health response omitted its status code")),
        Some(code) => {
            if code == 17 {
                return Ok(());
            }
            let number = signed_decimal_text(code);
            Err(
                ConnectorError::new(
                    ErrorCategory::Unavailable,
                    "Splunk HEC endpoint is not healthy",
                ).retryable(true).with_code(number.as_str()),
            )
        },
    }
}

/// The records of results.
pub open spec fn result_records(results: Seq<JsonModel>) -> Seq<RecordModel> {
    Seq::new(results.len(), |i: int| result_record(results[i]))
}

/// The results of a search.
pub open spec fn search_results(answer: JsonModel) -> Result<Seq<JsonModel>, ErrorModel> {
    match list_in(answer, "results"@) {
        None => Err(protocol_failure("Splunk oneshot response omitted results"@)),
        Some(results) => Ok(results),
    }
}

/// The records of an answer.
pub open spec fn answer_records(reading: SplunkReading, answer: JsonModel) -> Result<
    Seq<RecordModel>,
    ErrorModel,
> {
    match reading {
        SplunkReading::Search { limit } => match search_results(answer) {
            Err(error) => Err(error),
            Ok(results) => Ok(
                result_records(results.subrange(0, smaller(results.len() as int, limit as int))),
            ),
        },
        SplunkReading::Events { .. } => Ok(Seq::empty()),
    }
}

/// Reads the records of an answer.
pub fn read_records(reading: SplunkReading, answer: &Json) -> (result: Result<
    Vec<DbRecord>,
    ConnectorError,
>)
    ensures
        is_records_result(result, answer_records(reading, answer@)),
{
    match reading {
        SplunkReading::Events { .. } => Ok(Vec::new()),
        SplunkReading::Search { limit } => {
            let results = match find_list(answer, "results") {
                None => {
                    return Err(protocol("Splunk oneshot response omitted results"));
                },
                Some(results) => results,
            };
            let ghost all = documents(results@);
            let count: usize = if results.len() <= limit {
                results.len()
            } else {
                limit
            };
            let mut found: Vec<DbRecord> = Vec::new();
            let mut i: usize = 0;
            while i < count
                invariant
                    i <= count <= results@.len(),
                    all == documents(results@),
                    found@.len() == i,
                    forall|j: int| 0 <= j < i ==> (#[trigger] found@[j])@ == result_record(all[j]),
                decreases count - i,
            {
                assert(all[i as int] == results@[i as int]@);
                found.push(splunk_result_record(&results[i]));
                i = i + 1;
            }
            assert(records(found@) =~= result_records(all.subrange(0, count as int)));
            Ok(found)
        },
    }
}

/// The result of an operation whose answer holds records of the given encoded sizes.
pub open spec fn operation_outcome(
    context: ConnectorContext,
    profile: ConnectionProfile,
    reading: SplunkReading,
    answer: JsonModel,
    sizes: Seq<u64>,
    elapsed_ms: u64,
) -> Result<ResultModel, ErrorModel> {
    match reading {
        SplunkReading::Events { count } => match events_error(answer) {
            Some(error) => Err(error),
            None => finished_write(context, profile, count, elapsed_ms),
        },
        SplunkReading::Search { limit } => match search_results(answer) {
            Err(error) => Err(error),
            Ok(results) => {
                let found = result_records(
                    results.subrange(0, smaller(results.len() as int, limit as int)),
                );
                finished_prefix(
                    context,
                    profile,
                    found,
                    sizes,
                    found.len(),
                    None,
                    results.len() > limit,
                    elapsed_ms,
                )
            },
        },
    }
}

/// Makes the result of an operation whose answer holds records of the given encoded sizes.
pub fn finish_operation(
    context: &ConnectorContext,
    profile: &ConnectionProfile,
    reading: SplunkReading,
    answer: &Json,
    sizes: Vec<u64>,
    elapsed_ms: u64,
) -> (result: Result<OperationResult, ConnectorError>)
    requires
        answer_records(reading, answer@) matches Ok(found) ==> sizes@.len() == found.len(),
    ensures
        is_result_of(
            result,
            operation_outcome(*context, *profile, reading, answer@, sizes@, elapsed_ms),
        ),
{
    match reading {
        SplunkReading::Events { count } => match ensure_hec_success(answer) {
            Err(error) => Err(error),
            Ok(()) => finish_write(context, profile, count, elapsed_ms),
        },
        SplunkReading::Search { limit } => {
            let found = match read_records(reading, answer) {
                Err(error) => {
                    return Err(error);
                },
                Ok(found) => found,
            };
            assert(records(found@).len() == found@.len());
            let more = match find_list(answer, "results") {
                Some(results) => results.len() > limit,
                None => false,
            };
            let count: usize = found.len();
            finish_prefix(context, profile, found, sizes, count, None, more, elapsed_ms)
        },
    }
}

/// The request of an operation.
pub open spec fn operation_call(
    context: ConnectorContext,
    profile: ConnectionProfile,
    operation: DataOperation,
    remaining_ms: u64,
) -> Result<(RequestModel, SplunkReading), ErrorModel> {
    match operation {
        DataOperation::Read(request) => match rows_result(
            context,
            profile,
            request.options.limit,
        ) {
            Err(error) => Err(error),
            Ok(limit) => match read_spl(request, limit) {
                Err(error) => Err(error),
                Ok(spl) => search_call(
                    context,
                    profile,
                    QueryModel { spl, earliest: None, latest: None },
                    request.options.limit,
                    request.options.timeout_ms,
                    remaining_ms,
                ),
            },
        },
        DataOperation::Search(request) => match search_query(request) {
            Err(error) => Err(error),
            Ok(query) => search_call(
                context,
                profile,
                query,
                request.options.limit,
                request.options.timeout_ms,
                remaining_ms,
            ),
        },
        DataOperation::NativeQuery(request) => match language_error(
            request.language@,
            names_of(["spl", "splunk_spl"]@),
        ) {
            Some(error) => Err(error),
            None => match parameters_error(request) {
                Some(error) => Err(error),
                None => search_call(
                    context,
                    profile,
                    QueryModel { spl: request.statement@, earliest: None, latest: None },
                    context.max_rows,
                    None,
                    remaining_ms,
                ),
            },
        },
        DataOperation::Insert(request) => insert_call(context, profile, request),
        _ => Err(
            unsupported_request("Splunk exposes SPL query and HEC append, not row update/delete"@),
        ),
    }
}

/// A text that is not empty.
pub open spec fn filled_text(text: Option<Seq<char>>) -> Option<Seq<char>> {
    match text {
        Some(text) if text.len() > 0 => Some(text),
        _ => None,
    }
}

/// A text that is not empty.
fn only_filled(text: Option<&str>) -> (result: Option<&str>)
    ensures
        optional_str(result) == filled_text(optional_str(text)),
{
    match text {
        Some(text) => if text.is_empty() {
            None
        } else {
            Some(text)
        },
        None => None,
    }
}

/// The version and the name of a server.
pub open spec fn server_result(answer: JsonModel) -> Result<(Seq<char>, Seq<char>), ErrorModel> {
    match pointer_target(answer, "/entry/0/content"@) {
        None => Err(mismatch("Splunk server-info response omitted content"@)),
        Some(content) => match filled_text(text_of(member(content, "version"@))) {
            None => Err(mismatch("Splunk server-info response omitted version"@)),
            Some(version) => {
                let name = match member(content, "serverName"@) {
                    Some(name) => Some(name),
                    None => member(content, "server_name"@),
                };
                match filled_text(text_of(name)) {
                    None => Err(mismatch("Splunk server-info response omitted server name"@)),
                    Some(name) => Ok((version, name)),
                }
            },
        },
    }
}

/// The version and the name of a server.
fn read_server(answer: &Json) -> (result: Result<(String, String), ConnectorError>)
    ensures
        match (result, server_result(answer@)) {
            (Ok((version, name)), Ok((wanted, expected))) => version@ == wanted && name@
                == expected,
            (Err(error), Err(wanted)) => error@ == wanted,
            _ => false,
        },
{
    let content = match answer.pointer("/entry/0/content") {
        None => {
            return Err(mismatch_error("Splunk server-info response omitted content"));
        },
        Some(content) => content,
    };
    let version = match only_filled(as_text(content.get("version"))) {
        None => {
            return Err(mismatch_error("Splunk server-info response omitted version"));
        },
        Some(version) => version,
    };
    let name = match content.get("serverName") {
        Some(name) => Some(name),
        None => content.get("server_name"),
    };
    match only_filled(as_text(name)) {
        None => Err(mismatch_error("Splunk server-info response omitted server name")),
        Some(name) => Ok((version.to_owned(), name.to_owned())),
    }
}

/// What a server says of itself, and whether the event collector was tested.
pub open spec fn splunk_info(answer: JsonModel, tested: bool) -> Result<InfoModel, ErrorModel> {
    match server_result(answer) {
        Err(error) => Err(error),
        Ok((version, name)) => Ok(
            InfoModel {
                product_name: "Splunk"@,
                product_version: Some(version),
                api_mode: "splunk_rest_hec"@,
                server_identity: Some(name),
                warnings: if tested {
                    Seq::empty()
                } else {
                    Seq::empty().push(
                        "HEC token was not provided, so event-ingestion credentials were not tested"@,
                    )
                },
            },
        ),
    }
}

/// The catalog entity of an entry, where it has a name that holds the pattern.
pub open spec fn entry_entity(entry: JsonModel, pattern: Option<Seq<char>>) -> Option<EntityModel> {
    match text_of(member(entry, "name"@)) {
        None => None,
        Some(name) => if pattern matches Some(pattern) && !occurs_in(pattern, name) {
            None
        } else {
            let size = match nested(entry, "content"@, "currentDBSizeMB"@) {
                Some(size) => json_text(size),
                None => None,
            };
            Some(
                EntityModel {
                    id: name,
                    namespace: Some("index"@),
                    name,
                    kind: "index"@,
                    comment: match size {
                        Some(text) => Some("currentDBSizeMB="@ + text),
                        None => None,
                    },
                },
            )
        },
    }
}

/// The catalog entity of an entry.
fn read_entry(entry: &Json, pattern: Option<&str>) -> (result: Option<CatalogEntity>)
    ensures
        match (result, entry_entity(entry@, optional_str(pattern))) {
            (Some(entity), Some(wanted)) => entity@ == wanted,
            (None, None) => true,
            _ => false,
        },
{
    let name = match as_text(entry.get("name")) {
        None => {
            return None;
        },
        Some(name) => name,
    };
    match pattern {
        Some(pattern) => {
            if !contains_text(name, pattern) {
                return None;
            }
        },
        None => {},
    }
    let size = match find_nested(entry, "content", "currentDBSizeMB") {
        Some(size) => write_json(size),
        None => None,
    };
    let comment = match size {
        Some(text) => Some(appended("currentDBSizeMB=", text.as_str())),
        None => None,
    };
    Some(
        CatalogEntity {
            id: name.to_owned(),
            namespace: Some("index".to_owned()),
            name: name.to_owned(),
            kind: "index".to_owned(),
            comment,
        },
    )
}

/// The entities of the first entries that fill the room that is left, and how many entries those
/// are.
pub open spec fn taken(entries: Seq<JsonModel>, pattern: Option<Seq<char>>, room: nat) -> (
    Seq<EntityModel>,
    nat,
)
    decreases entries.len(),
{
    if entries.len() == 0 || room == 0 {
        (Seq::empty(), 0)
    } else {
        let rest = entries.subrange(1, entries.len() as int);
        match entry_entity(entries[0], pattern) {
            None => {
                let (found, consumed) = taken(rest, pattern, room);
                (found, consumed + 1)
            },
            Some(entity) => {
                let (found, consumed) = taken(rest, pattern, (room - 1) as nat);
                (seq![entity] + found, consumed + 1)
            },
        }
    }
}

/// The entities of entries whose names hold a pattern.
pub open spec fn matching(entries: Seq<JsonModel>, pattern: Option<Seq<char>>) -> Seq<EntityModel>
    decreases entries.len(),
{
    if entries.len() == 0 {
        Seq::empty()
    } else {
        let rest = matching(entries.subrange(1, entries.len() as int), pattern);
        match entry_entity(entries[0], pattern) {
            None => rest,
            Some(entity) => seq![entity] + rest,
        }
    }
}

/// What is taken of some entries is just what matches of those that are passed over, and entries
/// are left only where the room is filled.
pub proof fn lemma_nothing_is_passed_over(
    entries: Seq<JsonModel>,
    pattern: Option<Seq<char>>,
    room: nat,
)
    ensures
        ({
            let (found, consumed) = taken(entries, pattern, room);
            &&& consumed <= entries.len()
            &&& found.len() <= room
            &&& found.len() <= consumed
            &&& found == matching(entries.subrange(0, consumed as int), pattern)
            &&& consumed < entries.len() ==> found.len() == room
        }),
    decreases entries.len(),
{
    let (found, consumed) = taken(entries, pattern, room);
    if entries.len() == 0 || room == 0 {
        assert(entries.subrange(0, 0) =~= Seq::<JsonModel>::empty());
    } else {
        let rest = entries.subrange(1, entries.len() as int);
        let shown = entries.subrange(0, consumed as int);
        match entry_entity(entries[0], pattern) {
            None => {
                lemma_nothing_is_passed_over(rest, pattern, room);
            },
            Some(entity) => {
                lemma_nothing_is_passed_over(rest, pattern, (room - 1) as nat);
            },
        }
        assert(shown.subrange(1, shown.len() as int) =~= rest.subrange(0, consumed - 1));
        assert(shown[0] == entries[0]);
    }
}

/// A walk through the catalog of indexes, which the server lists in parts.
#[derive(Debug)]
pub struct SplunkCatalog {
    pub pattern: Option<String>,
    pub limit: usize,
    /// The place of the next entry.
    pub offset: usize,
    pub found: Vec<CatalogEntity>,
    pub next_cursor: Option<String>,
    pub finished: bool,
}

/// What a [`SplunkCatalog`] is.
pub struct CatalogModel {
    pub pattern: Option<Seq<char>>,
    pub limit: int,
    pub offset: int,
    pub found: Seq<EntityModel>,
    pub next_cursor: Option<Seq<char>>,
    pub finished: bool,
}

impl View for SplunkCatalog {
    type V = CatalogModel;

    open spec fn view(&self) -> CatalogModel {
        CatalogModel {
            pattern: optional_text(self.pattern),
            limit: self.limit as int,
            offset: self.offset as int,
            found: entities(self.found@),
            next_cursor: optional_text(self.next_cursor),
            finished: self.finished,
        }
    }
}

/// How many entries are asked for: as many as are left, at least a hundred and at most a thousand.
pub open spec fn part_size(state: CatalogModel) -> int {
    let remaining = state.limit - state.found.len();
    if remaining < 100 {
        100
    } else if remaining > 1000 {
        1000
    } else {
        remaining
    }
}

/// The start of a walk through the catalog.
pub open spec fn catalog_start(
    context: ConnectorContext,
    profile: ConnectionProfile,
    query: CatalogQuery,
) -> Result<CatalogModel, ErrorModel> {
    match rows_result(context, profile, query.limit) {
        Err(error) => Err(error),
        Ok(limit) => match cursor_result(optional_text(query.cursor)) {
            Err(error) => Err(error),
            Ok(offset) => Ok(
                CatalogModel {
                    pattern: optional_text(query.pattern),
                    limit,
                    offset,
                    found: Seq::empty(),
                    next_cursor: None,
                    finished: false,
                },
            ),
        },
    }
}

/// The next request of a walk through the catalog, where there is one left.
pub open spec fn catalog_request(profile: ConnectionProfile, state: CatalogModel) -> Result<
    Option<RequestModel>,
    ErrorModel,
> {
    if state.finished || state.found.len() >= state.limit {
        Ok(None)
    } else {
        match api_request(
            profile,
            MethodModel::Get,
            names_of(["services", "data", "indexes"]@),
            Seq::empty().push(("output_mode"@, "json"@)).push(
                ("count"@, decimal(part_size(state) as nat)),
            ).push(("offset"@, decimal(state.offset as nat))),
            BodyModel::Empty,
        ) {
            Err(error) => Err(error),
            Ok(request) => Ok(Some(request)),
        }
    }
}

/// The number of entries that the server says it has.
pub open spec fn stated_total(answer: JsonModel) -> Option<int> {
    match unsigned_of(nested(answer, "paging"@, "total"@)) {
        Some(total) if total <= usize::MAX => Some(total as int),
        _ => None,
    }
}

/// A walk through the catalog behind one more part.
pub open spec fn catalog_received(state: CatalogModel, answer: JsonModel) -> Result<
    CatalogModel,
    ErrorModel,
> {
    match list_in(answer, "entry"@) {
        None => Err(protocol_failure("Splunk index response omitted entries"@)),
        Some(entries) => if entries.len() == 0 {
            Ok(CatalogModel { finished: true, ..state })
        } else {
            let (more, consumed) = taken(
                entries,
                state.pattern,
                (state.limit - state.found.len()) as nat,
            );
            let found = state.found + more;
            let offset = state.offset + consumed;
            if offset > usize::MAX {
                Err(invalid_request("Splunk catalog cursor offset is too large"@))
            } else {
                let has_more = match stated_total(answer) {
                    Some(total) => offset < total,
                    None => consumed < entries.len() || entries.len() == part_size(state),
                };
                let full = found.len() == state.limit;
                Ok(
                    CatalogModel {
                        offset,
                        found,
                        next_cursor: if full && has_more {
                            Some(decimal(offset as nat))
                        } else {
                            state.next_cursor
                        },
                        finished: full || !has_more,
                        ..state
                    },
                )
            }
        },
    }
}

/// The page of the catalog that a walk found, whose encoded sizes are given.
pub open spec fn catalog_finished(
    context: ConnectorContext,
    profile: ConnectionProfile,
    query: CatalogQuery,
    state: CatalogModel,
    sizes: Seq<u64>,
) -> Result<PageModel, ErrorModel> {
    match bounded_result(context, profile, state.found, sizes, query.limit) {
        Err(error) => Err(error),
        Ok(shown) => Ok(PageModel { entities: shown, next_cursor: state.next_cursor }),
    }
}

/// Begins a walk through the catalog.
pub fn begin_catalog(context: &ConnectorContext, profile: &ConnectionProfile, query: &CatalogQuery) -> (result:
    Result<SplunkCatalog, ConnectorError>)
    ensures
        match (result, catalog_start(*context, *profile, *query)) {
            (Ok(catalog), Ok(wanted)) => catalog@ == wanted,
            (Err(error), Err(wanted)) => error@ == wanted,
            _ => false,
        },
{
    let limit: usize = match effective_rows(context, profile, query.limit) {
        Err(error) => {
            return Err(error);
        },
        Ok(limit) => limit,
    };
    let offset: usize = match parse_cursor_offset(borrowed(&query.cursor)) {
        Err(error) => {
            return Err(error);
        },
        Ok(offset) => offset,
    };
    Ok(
        SplunkCatalog {
            pattern: clone_optional(&query.pattern),
            limit,
            offset,
            found: Vec::new(),
            next_cursor: None,
            finished: false,
        },
    )
}

/// Takes entities of the first entries until the room that is left is filled.
fn take_entries(
    entries: &Vec<Json>,
    pattern: Option<&str>,
    limit: usize,
    found: &mut Vec<CatalogEntity>,
) -> (consumed: usize)
    requires
        old(found)@.len() < limit,
    ensures
        entities(final(found)@) == entities(old(found)@) + taken(
            documents(entries@),
            optional_str(pattern),
            (limit - old(found)@.len()) as nat,
        ).0,
        consumed == taken(
            documents(entries@),
            optional_str(pattern),
            (limit - old(found)@.len()) as nat,
        ).1,
        consumed <= entries@.len(),
        final(found)@.len() <= limit,
{
    let ghost all = documents(entries@);
    let ghost wanted = optional_str(pattern);
    let ghost before = entities(found@);
    let ghost room = (limit - found@.len()) as nat;
    let mut i: usize = 0;
    assert(all.subrange(0, all.len() as int) =~= all);
    assert(before + taken(all, wanted, room).0 =~= entities(found@) + taken(all, wanted, room).0);
    while i < entries.len() && found.len() < limit
        invariant
            i <= entries@.len(),
            found@.len() <= limit,
            all == documents(entries@),
            wanted == optional_str(pattern),
            before + taken(all, wanted, room).0 == entities(found@) + taken(
                all.subrange(i as int, all.len() as int),
                wanted,
                (limit - found@.len()) as nat,
            ).0,
            taken(all, wanted, room).1 == i + taken(
                all.subrange(i as int, all.len() as int),
                wanted,
                (limit - found@.len()) as nat,
            ).1,
        decreases entries@.len() - i,
    {
        let ghost rest = all.subrange(i as int, all.len() as int);
        assert(rest[0] == entries@[i as int]@);
        assert(rest.subrange(1, rest.len() as int) =~= all.subrange(i + 1, all.len() as int));
        let ghost shown = entities(found@);
        match read_entry(&entries[i], pattern) {
            Some(entity) => {
                let ghost added = entity@;
                let ghost later = taken(
                    all.subrange(i + 1, all.len() as int),
                    wanted,
                    (limit - found@.len() - 1) as nat,
                ).0;
                found.push(entity);
                assert(shown + (seq![added] + later) =~= shown.push(added) + later);
            },
            None => {},
        }
        i = i + 1;
    }
    assert(entities(found@) + Seq::<EntityModel>::empty() =~= entities(found@));
    i
}

impl SplunkCatalog {
    /// The next request, where there is one left.
    pub fn next_request(&self, profile: &ConnectionProfile) -> (result: Result<
        Option<HttpRequest>,
        ConnectorError,
    >)
        ensures
            is_next_request(result, catalog_request(*profile, self@)),
    {
        assert(entities(self.found@).len() == self.found@.len());
        if self.finished || self.found.len() >= self.limit {
            return Ok(None);
        }
        let count: usize = self.part_size();
        let mut query: Vec<(String, String)> = Vec::new();
        query.push(("output_mode".to_owned(), "json".to_owned()));
        query.push(("count".to_owned(), decimal_text(count as u64)));
        query.push(("offset".to_owned(), decimal_text(self.offset as u64)));
        match make_request(
            profile,
            HttpMethod::Get,
            &["services", "data", "indexes"],
            query,
            HttpBody::Empty,
        ) {
            Err(error) => Err(error),
            Ok(request) => Ok(Some(request)),
        }
    }

    /// How many entries are asked for.
    fn part_size(&self) -> (result: usize)
        requires
            self.found@.len() < self.limit,
        ensures
            result == part_size(self@),
    {
        assert(entities(self.found@).len() == self.found@.len());
        let remaining: usize = self.limit - self.found.len();
        if remaining < 100 {
            100
        } else if remaining > 1000 {
            1000
        } else {
            remaining
        }
    }

    /// Goes on behind one more part of the catalog.
    pub fn received(&mut self, answer: &Json) -> (result: Result<(), ConnectorError>)
        requires
            old(self).found@.len() < old(self).limit,
        ensures
            match (result, catalog_received(old(self)@, answer@)) {
                (Ok(()), Ok(wanted)) => final(self)@ == wanted && final(self).found@.len()
                    <= final(self).limit,
                (Err(error), Err(wanted)) => error@ == wanted,
                _ => false,
            },
    {
        assert(entities(self.found@).len() == self.found@.len());
        let entries = match find_list(answer, "entry") {
            None => {
                return Err(protocol("Splunk index response omitted entries"));
            },
            Some(entries) => entries,
        };
        if entries.len() == 0 {
            self.finished = true;
            return Ok(());
        }
        let size: usize = self.part_size();
        let consumed: usize = take_entries(
            entries,
            borrowed(&self.pattern),
            self.limit,
            &mut self.found,
        );
        assert(entities(self.found@).len() == self.found@.len());
        let offset: usize = match self.offset.checked_add(consumed) {
            None => {
                return Err(invalid("Splunk catalog cursor offset is too large"));
            },
            Some(offset) => offset,
        };
        self.offset = offset;
        let guess = consumed < entries.len() || entries.len() == size;
        let has_more = match as_unsigned(find_nested(answer, "paging", "total")) {
            Some(total) => if total <= usize::MAX as u64 {
                (offset as u64) < total
            } else {
                guess
            },
            None => guess,
        };
        let full = self.found.len() == self.limit;
        if full && has_more {
            self.next_cursor = Some(decimal_text(offset as u64));
        }
        self.finished = full || !has_more;
        Ok(())
    }

    /// Makes the page of what was found, whose encoded sizes are given.
    pub fn finish(
        self,
        context: &ConnectorContext,
        profile: &ConnectionProfile,
        query: &CatalogQuery,
        sizes: &Vec<u64>,
    ) -> (result: Result<CatalogPage, ConnectorError>)
        requires
            sizes@.len() == self.found@.len(),
        ensures
            is_page_result(
                result,
                catalog_finished(*context, *profile, *query, self@, sizes@),
            ),
    {
        match bounded_catalog(context, profile, self.found, sizes, query.limit) {
            Err(error) => Err(error),
            Ok(shown) => Ok(CatalogPage { entities: shown, next_cursor: self.next_cursor }),
        }
    }
}

/// A walk through the catalog shows at most as many entities as its limit admits, and goes on from
/// the first entry that it has not passed over.
pub proof fn lemma_catalog_goes_on(state: CatalogModel, answer: JsonModel)
    requires
        0 <= state.offset,
        state.found.len() < state.limit,
        state.next_cursor is None,
    ensures
        catalog_received(state, answer) matches Ok(next) ==> {
            let entries = list_in(answer, "entry"@)->0;
            &&& next.found.len() <= state.limit
            &&& state.offset <= next.offset <= state.offset + entries.len()
            &&& next.found == state.found + matching(
                entries.subrange(0, next.offset - state.offset),
                state.pattern,
            )
            &&& next.offset < state.offset + entries.len() ==> next.found.len() == state.limit
            &&& next.next_cursor matches Some(cursor) ==> cursor_result(Some(cursor)) == Ok::<
                int,
                ErrorModel,
            >(next.offset)
        },
{
    if let Some(entries) = list_in(answer, "entry"@) {
        let room = (state.limit - state.found.len()) as nat;
        lemma_nothing_is_passed_over(entries, state.pattern, room);
        let consumed = taken(entries, state.pattern, room).1;
        assert(entries.subrange(0, 0) =~= Seq::<JsonModel>::empty());
        assert(state.found + Seq::<EntityModel>::empty() =~= state.found);
        if state.offset + consumed <= usize::MAX {
            lemma_cursor_round_trip((state.offset + consumed) as usize);
        }
    }
}

/// What the description of an index says of it.
pub open spec fn index_description(name: Seq<char>, answer: JsonModel) -> Result<
    DescriptionModel,
    ErrorModel,
> {
    match pointer_target(answer, "/entry/0"@) {
        None => Err(protocol_failure("Splunk index description omitted its entry"@)),
        Some(entry) => Ok(
            DescriptionModel {
                entity: EntityModel {
                    id: name,
                    namespace: Some("index"@),
                    name,
                    kind: "index"@,
                    comment: None,
                },
                fields: Seq::empty(),
                metadata: match member(entry, "content"@) {
                    Some(content) => json_record(content),
                    None => Seq::empty(),
                },
                truncated: false,
                warnings: Seq::empty(),
            },
        ),
    }
}

/// The parameter that asks for JSON.
pub open spec fn as_json() -> Seq<(Seq<char>, Seq<char>)> {
    Seq::empty().push(("output_mode"@, "json"@))
}

/// The parameter that asks for JSON.
fn json_parameter() -> (result: Vec<(String, String)>)
    ensures
        pairs(result@) == as_json(),
{
    let mut query: Vec<(String, String)> = Vec::new();
    query.push(("output_mode".to_owned(), "json".to_owned()));
    query
}

/// What the connector for Splunk can do.
pub open spec fn splunk_capabilities() -> Seq<Capability> {
    seq![Capability::TestConnection].push(Capability::Discover).push(Capability::Describe).push(
        Capability::Read,
    ).push(Capability::Insert).push(Capability::Batch).push(Capability::NativeQuery).push(
        Capability::TextSearch,
    )
}

/// The connector for Splunk.
#[derive(Debug, Clone, Copy)]
pub struct SplunkConnector {}

impl Default for SplunkConnector {
    fn default() -> (result: SplunkConnector) {
        SplunkConnector {  }
    }
}

impl SplunkConnector {
    /// What the connector says of itself.
    pub fn manifest(&self) -> (result: ConnectorManifest)
        ensures
            result.id@ == "splunk-rest-hec"@,
            result.display_name@ == "Splunk REST + HEC"@,
            result.product == Product::Splunk,
            result.api_mode@ == "splunk_rest_hec"@,
            result.driver@ == "reqwest-rest"@,
            result.driver_version@ == "0.1.0"@,
            result.status == ConnectorStatus::Experimental,
            result.capabilities@ == splunk_capabilities(),
            result.auth_kinds@ == seq![AuthKind::UsernamePassword].push(
                AuthKind::BearerToken,
            ).push(AuthKind::ApiKey),
            texts(result.limitations@) == seq!["queries use bounded oneshot search jobs"@].push(
                "writes append events through HEC; existing events cannot be updated or deleted"@,
            ).push("HEC may use a separate hec_endpoint option and hec_token secret field"@).push(
                "idempotency keys are enforced by the local runtime, not by HEC"@,
            ),
    {
        let mut capabilities: Vec<Capability> = Vec::new();
        capabilities.push(Capability::TestConnection);
        capabilities.push(Capability::Discover);
        capabilities.push(Capability::Describe);
        capabilities.push(Capability::Read);
        capabilities.push(Capability::Insert);
        capabilities.push(Capability::Batch);
        capabilities.push(Capability::NativeQuery);
        capabilities.push(Capability::TextSearch);
        let mut auth_kinds: Vec<AuthKind> = Vec::new();
        auth_kinds.push(AuthKind::UsernamePassword);
        auth_kinds.push(AuthKind::BearerToken);
        auth_kinds.push(AuthKind::ApiKey);
        let mut limitations: Vec<String> = Vec::new();
        limitations.push("queries use bounded oneshot search jobs".to_owned());
        limitations.push(
            "writes append events through HEC; existing events cannot be updated or deleted".to_owned(),
        );
        limitations.push(
            "HEC may use a separate hec_endpoint option and hec_token secret field".to_owned(),
        );
        limitations.push(
            "idempotency keys are enforced by the local runtime, not by HEC".to_owned(),
        );
        ConnectorManifest {
            id: "splunk-rest-hec".to_owned(),
            display_name: "Splunk REST + HEC".to_owned(),
            product: Product::Splunk,
            api_mode: "splunk_rest_hec".to_owned(),
            driver: "reqwest-rest".to_owned(),
            driver_version: "0.1.0".to_owned(),
            status: ConnectorStatus::Experimental,
            capabilities,
            auth_kinds,
            limitations,
        }
    }

    /// Refuses profiles that are not for this connector.
    pub fn validate(profile: &ConnectionProfile) -> (result: Result<(), ConnectorError>)
        ensures
            error_of(result) == profile_error(
                *profile,
                Product::Splunk,
                names_of(["splunk_rest_hec"]@),
            ),
    {
        validate_profile(profile, Product::Splunk, &["splunk_rest_hec"])
    }

    /// Refuses a profile and a credential with which no connection could be made.
    pub fn validate_connection_input(
        profile: &ConnectionProfile,
        secret: &SecretMaterial,
    ) -> (result: Result<(), ConnectorError>)
        ensures
            error_of(result) == first_error(
                profile_error(*profile, Product::Splunk, names_of(["splunk_rest_hec"]@)),
                first_error(
                    failing(
                    client_result(
                        *profile,
                        secret.kind,
                        secret.fields@,
                        AuthStyle::SplunkManagement,
                        Seq::empty(),
                    ),
                ),
                    failing(
                        collector_url(*profile, names_of(["services", "collector", "event"]@)),
                    ),
                ),
            ),
    {
        match Self::validate(profile) {
            Err(error) => {
                return Err(error);
            },
            Ok(_) => {},
        }
        match Self::management_client(profile, secret) {
            Err(error) => {
                return Err(error);
            },
            Ok(_) => {},
        }
        match splunk_hec_api_url(profile, &["services", "collector", "event"]) {
            Err(error) => Err(error),
            Ok(_) => Ok(()),
        }
    }

    /// How the client of the management API is set up.
    pub fn management_client(profile: &ConnectionProfile, secret: &SecretMaterial) -> (result: Result<
        ClientPlan,
        ConnectorError,
    >)
        ensures
            match (
                result,
                client_result(
                    *profile,
                    secret.kind,
                    secret.fields@,
                    AuthStyle::SplunkManagement,
                    Seq::empty(),
                ),
            ) {
                (Ok(plan), Ok(wanted)) => plan@ == wanted,
                (Err(error), Err(wanted)) => error@ == wanted,
                _ => false,
            },
    {
        client_plan(profile, secret, AuthStyle::SplunkManagement, &Vec::new())
    }

    /// How the client of the event collector is set up.
    pub fn hec_client(profile: &ConnectionProfile, secret: &SecretMaterial) -> (result: Result<
        ClientPlan,
        ConnectorError,
    >)
        ensures
            match (
                result,
                client_result(
                    *profile,
                    secret.kind,
                    secret.fields@,
                    AuthStyle::SplunkHec,
                    Seq::empty(),
                ),
            ) {
                (Ok(plan), Ok(wanted)) => plan@ == wanted,
                (Err(error), Err(wanted)) => error@ == wanted,
                _ => false,
            },
    {
        client_plan(profile, secret, AuthStyle::SplunkHec, &Vec::new())
    }

    /// The request for what the server says of itself.
    pub fn test_request(profile: &ConnectionProfile) -> (result: Result<HttpRequest, ConnectorError>)
        ensures
            is_request_result(
                result,
                api_request(
                    *profile,
                    MethodModel::Get,
                    names_of(["services", "server", "info"]@),
                    as_json(),
                    BodyModel::Empty,
                ),
            ),
    {
        make_request(
            profile,
            HttpMethod::Get,
            &["services", "server", "info"],
            json_parameter(),
            HttpBody::Empty,
        )
    }

    /// Whether a connection test asks the event collector for its health as well: where there is
    /// a token for it.
    pub fn tests_collector(secret: &SecretMaterial) -> (result: bool)
        ensures
            result == (filled_field(secret.fields@, "hec_token"@) is Some),
    {
        filled(secret, "hec_token").is_some()
    }

    /// The request for the health of the event collector.
    pub fn health_request(profile: &ConnectionProfile) -> (result: Result<
        HttpRequest,
        ConnectorError,
    >)
        ensures
            is_request_result(
                result,
                match collector_url(
                    *profile,
                    names_of(["services", "collector", "health", "1.0"]@),
                ) {
                    Err(error) => Err(error),
                    Ok(url) => Ok(plain_request(MethodModel::Get, url)),
                },
            ),
    {
        match splunk_hec_api_url(profile, &["services", "collector", "health", "1.0"]) {
            Err(error) => Err(error),
            Ok(url) => Ok(crate::http::transport::request(HttpMethod::Get, url)),
        }
    }

    /// What the server says of itself; `tested` says whether the event collector was asked for its
    /// health.
    pub fn connection_info(answer: &Json, tested: bool) -> (result: Result<
        ConnectionInfo,
        ConnectorError,
    >)
        ensures
            is_info_result(result, splunk_info(answer@, tested)),
    {
        match read_server(answer) {
            Err(error) => Err(error),
            Ok((version, name)) => {
                let mut warnings: Vec<String> = Vec::new();
                if !tested {
                    warnings.push(
                        "HEC token was not provided, so event-ingestion credentials were not tested".to_owned(),
                    );
                }
                Ok(
                    ConnectionInfo {
                        product_name: "Splunk".to_owned(),
                        product_version: Some(version),
                        api_mode: "splunk_rest_hec".to_owned(),
                        server_identity: Some(name),
                        warnings,
                    },
                )
            },
        }
    }

    /// Whether the catalog has nothing of what a query asks for.
    pub fn is_outside(query: &CatalogQuery) -> (result: bool)
        ensures
            result == asks_elsewhere(*query, "index"@),
    {
        is_elsewhere(query, "index")
    }

    /// The request for the description of an index.
    pub fn describe_request(profile: &ConnectionProfile, entity_id: &str) -> (result: Result<
        HttpRequest,
        ConnectorError,
    >)
        ensures
            is_request_result(
                result,
                match target_error(entity_id@) {
                    Some(error) => Err(error),
                    None => api_request(
                        *profile,
                        MethodModel::Get,
                        names_of(["services", "data", "indexes"]@).push(entity_id@),
                        as_json(),
                        BodyModel::Empty,
                    ),
                },
            ),
    {
        match validate_target(entity_id) {
            Err(error) => {
                return Err(error);
            },
            Ok(()) => {},
        }
        assert(names_of(["services", "data", "indexes", entity_id]@) =~= names_of(
            ["services", "data", "indexes"]@,
        ).push(entity_id@));
        make_request(
            profile,
            HttpMethod::Get,
            &["services", "data", "indexes", entity_id],
            json_parameter(),
            HttpBody::Empty,
        )
    }

    /// Describes an index.
    pub fn describe_entity(entity_id: &str, answer: &Json) -> (result: Result<
        EntityDescription,
        ConnectorError,
    >)
        ensures
            is_description_result(result, index_description(entity_id@, answer@)),
    {
        let entry = match answer.pointer("/entry/0") {
            None => {
                return Err(protocol("Splunk index description omitted its entry"));
            },
            Some(entry) => entry,
        };
        let metadata = match entry.get("content") {
            Some(content) => json_to_record(content),
            None => DbRecord::new(),
        };
        Ok(
            EntityDescription {
                entity: CatalogEntity {
                    id: entity_id.to_owned(),
                    namespace: Some("index".to_owned()),
                    name: entity_id.to_owned(),
                    kind: "index".to_owned(),
                    comment: None,
                },
                fields: Vec::new(),
                metadata,
                truncated: false,
                warnings: Vec::new(),
            },
        )
    }

    /// Makes the request of an operation.
    pub fn begin_operation(
        context: &ConnectorContext,
        profile: &ConnectionProfile,
        operation: &DataOperation,
        remaining_ms: u64,
    ) -> (result: Result<SplunkCall, ConnectorError>)
        ensures
            is_call_result(
                result,
                operation_call(*context, *profile, *operation, remaining_ms),
            ),
    {
        match operation {
            DataOperation::Read(request) => {
                let limit: usize = match effective_rows(context, profile, request.options.limit) {
                    Err(error) => {
                        return Err(error);
                    },
                    Ok(limit) => limit,
                };
                match splunk_read_spl(request, limit) {
                    Err(error) => Err(error),
                    Ok(spl) => {
                        let query = SplunkQuery { spl, earliest: None, latest: None };
                        run_search(
                            context,
                            profile,
                            &query,
                            request.options.limit,
                            request.options.timeout_ms,
                            remaining_ms,
                        )
                    },
                }
            },
            DataOperation::Search(request) => match splunk_search_request(request) {
                Err(error) => Err(error),
                Ok(query) => run_search(
                    context,
                    profile,
                    &query,
                    request.options.limit,
                    request.options.timeout_ms,
                    remaining_ms,
                ),
            },
            DataOperation::NativeQuery(request) => {
                match ensure_language(request.language.as_str(), &["spl", "splunk_spl"]) {
                    Err(error) => {
                        return Err(error);
                    },
                    Ok(()) => {},
                }
                match validate_native_parameters(request) {
                    Err(error) => {
                        return Err(error);
                    },
                    Ok(()) => {},
                }
                let query = SplunkQuery {
                    spl: request.statement.clone(),
                    earliest: None,
                    latest: None,
                };
                run_search(context, profile, &query, context.max_rows, None, remaining_ms)
            },
            DataOperation::Insert(request) => hec_insert(context, profile, request),
            _ => Err(
                unsupported("Splunk exposes SPL query and HEC append, not row update/delete"),
            ),
        }
    }
}

/// Every query that is sent to the search API only reads, whatever operation it comes from.
pub proof fn lemma_searches_only_read(
    context: ConnectorContext,
    profile: ConnectionProfile,
    query: QueryModel,
    requested: u32,
    timeout_ms: Option<u64>,
    remaining_ms: u64,
)
    ensures
        search_call(context, profile, query, requested, timeout_ms, remaining_ms) is Ok
            ==> spl_error(query.spl) is None,
{
}

/// Events count as written only where the event collector says that it took them; where it says
/// nothing, the outcome is unknown.
pub proof fn lemma_events_are_confirmed(answer: JsonModel)
    ensures
        events_error(answer) is None <==> signed_of(member(answer, "code"@)) == Some(0i64),
        signed_of(member(answer, "code"@)) is None ==> events_error(answer)->0.category
            == ErrorCategory::UnknownOutcome,
{
}

/// The connector takes up no operation that its manifest does not name, and in particular no
/// native write.
pub proof fn lemma_only_named_operations_start(
    context: ConnectorContext,
    profile: ConnectionProfile,
    operation: DataOperation,
    remaining_ms: u64,
)
    ensures
        operation_call(context, profile, operation, remaining_ms) is Ok ==> covers(
            splunk_capabilities(),
            operation,
        ),
        !splunk_capabilities().contains(Capability::NativeExecute),
{
    let list = splunk_capabilities();
    assert(list[0] == Capability::TestConnection);
    assert(list[1] == Capability::Discover);
    assert(list[2] == Capability::Describe);
    assert(list[3] == Capability::Read);
    assert(list[4] == Capability::Insert);
    assert(list[5] == Capability::Batch);
    assert(list[6] == Capability::NativeQuery);
    assert(list[7] == Capability::TextSearch);
}

} // verus!
