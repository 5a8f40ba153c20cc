//! Pinecone.
use crate::budget::{capped, lemma_total_grows, total};
use crate::convert::{
    is_json_list_result, is_json_result, json_records, json_to_records, record_json, record_to_json,
};
use crate::http::auth::{client_plan, client_result, AuthStyle, ClientPlan};
use crate::http::common::{
    add_members, affected_error, asks_elsewhere, bounded_catalog, bounded_result, byte_limit,
    catalog_page, content_record, cursor_result, effective_bytes, effective_rows, ensure_language,
    extract_ids, filter_ids, find_list, find_nested, find_text_option, finish_read, finish_result,
    finish_write, finished, finished_read, finished_write, found_entities, generic_records,
    is_elsewhere, is_entities_result, is_page_result, is_records_result, language_error, list_in,
    member_value, mismatch, mismatch_error, nested, parameters_error, parse_cursor_offset,
    profile_error, read_content_record, read_entities, read_member_value, records_from_generic_json,
    rows_result, target_error, text_option, validate_affected, validate_native_parameters,
    validate_profile, validate_target, with_members, CommentSource, EntitySource, Finish,
};
use crate::http::native::{
    envelope_document, envelope_result, is_envelope_result, native_request, native_result,
    parse_native_envelope, EnvelopeModel, NativeHttpEnvelope,
};
use crate::http::pinecone_host::{plaintext_error, url_host, validate_pinecone_url};
use crate::http::transport::{
    add_parameter, api_request, append_segments, begin_query, begun_result, group_pairs,
    is_request_result, make_request, owned_texts, pairs, segments_result, walk_segments,
    walked_result, with_parameter, with_query_begun, BodyModel, EndpointModel, HttpBody, HttpMethod,
    HttpRequest, MethodModel, RequestModel,
};
use crate::json::{
    as_members, as_text, as_unsigned, copy_members, find, member, members_of, number, text,
    text_documents, text_of, texts_to_json, unsigned_of, vector_documents, with_member,
    write_vector, JsonObject,
};
use crate::model::{
    covers, entities, error_of, failing, failure, first_error, framed, invalid, invalid_request,
    is_info_result, is_result_of, is_texts_result, protocol, protocol_failure, unsupported,
    unsupported_request, AuthKind, Capability, CatalogEntity, CatalogPage, CatalogQuery,
    ConnectionInfo, ConnectionProfile, ConnectorContext, ConnectorError, ConnectorManifest,
    ConnectorStatus, DataOperation, DeleteRequest, DescriptionModel, Endpoint, EntityDescription,
    EntityModel, ErrorCategory, ErrorModel, InfoModel, NativeRequest, OperationResult, PageModel,
    Product, ReadRequest, ResultModel, SearchRequest, SecretMaterial, VectorPoint,
    VectorSearchRequest, VectorUpsertRequest, WriteOutcome,
};
use crate::text::{
    begins_with, borrowed, clone_optional, clone_texts, decimal, decimal_text, names_of,
    optional_str, optional_text, same, split, split_on, starts_with, texts, trim_leading,
    without_leading,
};
use crate::value::{
    documents, doubles, members, named, records, selected, with_entry, DbRecord, DbValue, Json,
    JsonModel, RecordModel, ValueModel,
};
use vstd::prelude::*;
use vstd::utf8::encode_utf8;

verus! {

broadcast use {
    crate::text::group_texts,
    crate::value::group_models,
    crate::model::group_entities,
    group_pairs,
};

/// The record of a vector: its metadata and what it keeps besides.
pub open spec fn vector_record(vector: JsonModel) -> RecordModel {
    content_record(vector, "metadata"@, names_of(["id", "score", "values", "sparseValues"]@))
}

/// The record of a vector.
pub fn pinecone_vector_record(vector: &Json) -> (result: DbRecord)
    ensures
        result@ == vector_record(vector@),
{
    read_content_record(vector, "metadata", &["id", "score", "values", "sparseValues"])
}

/// The error of a page that does not fit into the limit of bytes.
pub open spec fn page_error(sizes: Seq<u64>, max_bytes: u64) -> Option<ErrorModel> {
    if capped(total(sizes)) > max_bytes {
        Some(
            invalid_request(
                "Pinecone read page exceeds max_bytes; reduce the requested limit or fetched id count"@,
            ),
        )
    } else {
        None
    }
}

/// Refuses a page that does not fit into the limit of bytes.
pub fn ensure_read_page_fits(sizes: &Vec<u64>, max_bytes: u64) -> (result: Result<
    (),
    ConnectorError,
>)
    ensures
        error_of(result) == page_error(sizes@, max_bytes),
{
    let mut bytes: u64 = 0;
    let mut i: usize = 0;
    assert(sizes@.subrange(0, 0) =~= Seq::<u64>::empty());
    while i < sizes.len()
        invariant
            i <= sizes@.len(),
            bytes == capped(total(sizes@.subrange(0, i as int))),
            bytes <= max_bytes,
        decreases sizes@.len() - i,
    {
        assert(sizes@.subrange(0, i + 1).drop_last() =~= sizes@.subrange(0, i as int));
        bytes = bytes.saturating_add(sizes[i]);
        if bytes > max_bytes {
            proof {
                lemma_total_grows(sizes@, i + 1);
            }
            return Err(
                invalid(
                    "Pinecone read page exceeds max_bytes; reduce the requested limit or fetched id count",
                ),
            );
        }
        i = i + 1;
    }
    assert(sizes@.subrange(0, i as int) =~= sizes@);
    Ok(())
}

/// The records of the matches of a query.
pub open spec fn match_records(answer: JsonModel) -> Result<Seq<RecordModel>, ErrorModel> {
    match list_in(answer, "matches"@) {
        None => Err(protocol_failure("Pinecone query response omitted matches"@)),
        Some(list) => Ok(Seq::new(list.len(), |i: int| vector_record(list[i]))),
    }
}

/// Reads the records of the matches of a query.
pub fn pinecone_matches(answer: &Json) -> (result: Result<Vec<DbRecord>, ConnectorError>)
    ensures
        is_records_result(result, match_records(answer@)),
{
    let list = match find_list(answer, "matches") {
        None => {
            return Err(protocol("Pinecone query response omitted matches"));
        },
        Some(list) => list,
    };
    let ghost all = documents(list@);
    let mut found: Vec<DbRecord> = Vec::new();
    let mut i: usize = 0;
    while i < list.len()
        invariant
            i <= list@.len(),
            all == documents(list@),
            found@.len() == i,
            forall|j: int| 0 <= j < i ==> (#[trigger] found@[j])@ == vector_record(all[j]),
        decreases list@.len() - i,
    {
        assert(all[i as int] == list@[i as int]@);
        found.push(pinecone_vector_record(&list[i]));
        i = i + 1;
    }
    assert(records(found@) =~= Seq::new(all.len(), |i: int| vector_record(all[i])));
    Ok(found)
}

/// The record of a vector with the wanted fields and its identity; all where none are named.
pub open spec fn shown_vector(vector: JsonModel, fields: Seq<Seq<char>>) -> RecordModel {
    if fields.len() == 0 {
        vector_record(vector)
    } else {
        selected(vector_record(vector), fields.push("id"@), true)
    }
}

/// The records of vectors that were fetched by their identities.
pub open spec fn fetched_records(answer: JsonModel, fields: Seq<Seq<char>>) -> Result<
    Seq<RecordModel>,
    ErrorModel,
> {
    match members_of(member(answer, "vectors"@)) {
        None => Err(protocol_failure("Pinecone fetch response omitted vectors"@)),
        Some(list) => Ok(Seq::new(list.len(), |i: int| shown_vector(list[i].1, fields))),
    }
}

/// Reads the records of vectors that were fetched by their identities.
fn read_fetched(answer: &Json, fields: &Vec<String>) -> (result: Result<
    Vec<DbRecord>,
    ConnectorError,
>)
    ensures
        is_records_result(result, fetched_records(answer@, texts(fields@))),
{
    let list = match as_members(answer.get("vectors")) {
        None => {
            return Err(protocol("Pinecone fetch response omitted vectors"));
        },
        Some(list) => list,
    };
    let ghost all = members(list@);
    let ghost wanted = texts(fields@);
    assert(wanted.len() == fields@.len());
    let mut kept = clone_texts(fields);
    kept.push("id".to_owned());
    let mut found: Vec<DbRecord> = Vec::new();
    let mut i: usize = 0;
    while i < list.len()
        invariant
            i <= list@.len(),
            all == members(list@),
            wanted == texts(fields@),
            wanted.len() == fields@.len(),
            texts(kept@) == wanted.push("id"@),
            found@.len() == i,
            forall|j: int|
                0 <= j < i ==> (#[trigger] found@[j])@ == shown_vector(all[j].1, wanted),
        decreases list@.len() - i,
    {
        assert(all[i as int].1 == list@[i as int].1@);
        let record = pinecone_vector_record(&list[i].1);
        if fields.len() == 0 {
            found.push(record);
        } else {
            found.push(record.select(&kept, true));
        }
        i = i + 1;
    }
    assert(records(found@) =~= Seq::new(all.len(), |i: int| shown_vector(all[i].1, wanted)));
    Ok(found)
}

/// The records of a listing.
pub open spec fn listed_records(answer: JsonModel) -> Result<Seq<RecordModel>, ErrorModel> {
    match list_in(answer, "vectors"@) {
        None => Err(protocol_failure("Pinecone list response omitted vectors"@)),
        Some(list) => Ok(json_records(list)),
    }
}

/// The cursor behind a listing.
pub open spec fn listed_cursor(answer: JsonModel) -> Option<Seq<char>> {
    match text_of(nested(answer, "pagination"@, "next"@)) {
        Some(cursor) if cursor.len() > 0 => Some(cursor),
        _ => None,
    }
}

/// How many vectors an answer confirms: as many as were sent, or the outcome is unknown.
pub open spec fn confirmed_count(answer: JsonModel, expected: u64) -> Result<u64, ErrorModel> {
    match unsigned_of(member(answer, "upsertedCount"@)) {
        None => Err(
            failure(
                ErrorCategory::UnknownOutcome,
                "Pinecone upsert response did not confirm the affected count"@,
            ),
        ),
        Some(affected) => if affected != expected {
            Err(
                failure(
                    ErrorCategory::UnknownOutcome,
                    "Pinecone confirmed "@ + decimal(affected as nat) + " of "@ + decimal(
                        expected as nat,
                    ) + " requested vector(s); the remaining outcome is unknown"@,
                ),
            )
        } else {
            Ok(affected)
        },
    }
}

/// Reads how many vectors an answer confirms.
pub fn confirmed_pinecone_upsert_count(answer: &Json, expected: u64) -> (result: Result<
    u64,
    ConnectorError,
>)
    ensures
        match (result, confirmed_count(answer@, expected)) {
            (Ok(count), Ok(wanted)) => count == wanted,
            (Err(error), Err(wanted)) => error@ == wanted,
            _ => false,
        },
{
    let affected: u64 = match as_unsigned(answer.get("upsertedCount")) {
        None => {
            return Err(
                ConnectorError::new(
                    ErrorCategory::UnknownOutcome,
                    "Pinecone upsert response did not confirm the affected count",
                ),
            );
        },
        Some(affected) => affected,
    };
    if affected != expected {
        let confirmed = decimal_text(affected);
        let requested = decimal_text(expected);
        let message = framed("Pinecone confirmed ", confirmed.as_str(), " of ");
        let message = framed(
            message.as_str(),
            requested.as_str(),
            " requested vector(s); the remaining outcome is unknown",
        );
        return Err(ConnectorError::new(ErrorCategory::UnknownOutcome, message.as_str()));
    }
    Ok(affected)
}

/// A write of vectors counts as done only where the answer confirms every one of them; everything
/// else leaves the outcome unknown.
pub proof fn lemma_upserts_are_confirmed_whole(answer: JsonModel, expected: u64)
    ensures
        confirmed_count(answer, expected) is Ok <==> unsigned_of(
            member(answer, "upsertedCount"@),
        ) == Some(expected),
        confirmed_count(answer, expected) matches Err(error) ==> error.category
            == ErrorCategory::UnknownOutcome,
{
}

/// Whether a native request only reads.
pub open spec fn is_native_read(method: MethodModel, path: Seq<char>) -> bool {
    let fetching = method is Get || method is Head;
    if path == "/indexes"@ || begins_with(path, "/indexes/"@) {
        fetching
    } else if path == "/query"@ || path == "/describe_index_stats"@ {
        method is Post
    } else if path == "/vectors/fetch"@ || path == "/vectors/list"@ || path == "/namespaces"@
        || begins_with(path, "/namespaces/"@) {
        fetching
    } else {
        false
    }
}

/// Whether a native request only reads.
pub fn pinecone_native_read_path(method: &HttpMethod, path: &str) -> (result: bool)
    ensures
        result == is_native_read(method@, path@),
{
    let fetching = matches!(method, HttpMethod::Get | HttpMethod::Head);
    if same(path, "/indexes") || starts_with(path, "/indexes/") {
        fetching
    } else if same(path, "/query") || same(path, "/describe_index_stats") {
        matches!(method, HttpMethod::Post)
    } else if same(path, "/vectors/fetch") || same(path, "/vectors/list") || same(
        path,
        "/namespaces",
    ) || starts_with(path, "/namespaces/") {
        fetching
    } else {
        false
    }
}

/// A request under the data URL of an index.
pub open spec fn data_request(
    base: EndpointModel,
    method: MethodModel,
    segments: Seq<Seq<char>>,
    query: Seq<(Seq<char>, Seq<char>)>,
    body: BodyModel,
) -> Result<RequestModel, ErrorModel> {
    match segments_result(base, segments) {
        Err(error) => Err(error),
        Ok(url) => Ok(RequestModel { method, url, query, body, timeout_ms: None }),
    }
}

/// Makes a request under the data URL of an index.
fn make_data_request(
    base: &Endpoint,
    method: HttpMethod,
    segments: &Vec<String>,
    query: Vec<(String, String)>,
    body: HttpBody,
) -> (result: Result<HttpRequest, ConnectorError>)
    ensures
        is_request_result(
            result,
            data_request(base@, method@, texts(segments@), pairs(query@), body@),
        ),
{
    match append_segments(base, segments) {
        Err(error) => Err(error),
        Ok(url) => Ok(HttpRequest { method, url, query, body, timeout_ms: None }),
    }
}

/// How the answer to a request is read.
#[derive(Debug)]
pub enum PineconeReading {
    Fetch { fields: Vec<String> },
    List,
    Matches,
    Upsert { expected: u64 },
    Delete { count: u64 },
    Native,
}

/// What a [`PineconeReading`] is.
pub enum ReadingModel {
    Fetch { fields: Seq<Seq<char>> },
    List,
    Matches,
    Upsert { expected: u64 },
    Delete { count: u64 },
    Native,
}

impl View for PineconeReading {
    type V = ReadingModel;

    open spec fn view(&self) -> ReadingModel {
        match *self {
            PineconeReading::Fetch { fields } => ReadingModel::Fetch { fields: texts(fields@) },
            PineconeReading::List => ReadingModel::List,
            PineconeReading::Matches => ReadingModel::Matches,
            PineconeReading::Upsert { expected } => ReadingModel::Upsert { expected },
            PineconeReading::Delete { count } => ReadingModel::Delete { count },
            PineconeReading::Native => ReadingModel::Native,
        }
    }
}

/// A request, and how its answer is read.
#[derive(Debug)]
pub struct PineconeCall {
    pub request: HttpRequest,
    pub reading: PineconeReading,
}

/// Whether a request is what is expected of it.
pub open spec fn is_call_result(
    result: Result<PineconeCall, ConnectorError>,
    expected: Result<(RequestModel, ReadingModel), ErrorModel>,
) -> bool {
    match (result, expected) {
        (Ok(call), Ok((wanted, reading))) => call.request@ == wanted && call.reading@ == reading,
        (Err(error), Err(wanted)) => error@ == wanted,
        _ => false,
    }
}

/// A request together with how its answer is read.
pub open spec fn call_of(request: Result<RequestModel, ErrorModel>, reading: ReadingModel) -> Result<
    (RequestModel, ReadingModel),
    ErrorModel,
> {
    match request {
        Err(error) => Err(error),
        Ok(request) => Ok((request, reading)),
    }
}

/// A request together with how its answer is read.
fn make_call(request: Result<HttpRequest, ConnectorError>, reading: PineconeReading) -> (result:
    Result<PineconeCall, ConnectorError>)
    ensures
        match (request, result) {
            (Ok(request), Ok(call)) => call.request@ == request@ && call.reading@ == reading@,
            (Err(error), Err(given)) => error@ == given@,
            _ => false,
        },
{
    match request {
        Err(error) => Err(error),
        Ok(request) => Ok(PineconeCall { request, reading }),
    }
}

/// What is checked of a read before the data URL is known.
pub open spec fn read_error(request: ReadRequest) -> Option<ErrorModel> {
    match target_error(request.target@) {
        Some(error) => Some(error),
        None => if request.options.sort@.len() > 0 {
            Some(
                unsupported_request("Pinecone vector reads do not expose generic sort ordering"@),
            )
        } else {
            None
        },
    }
}

/// Checks a read before the data URL is known.
fn check_read(request: &ReadRequest) -> (result: Result<(), ConnectorError>)
    ensures
        error_of(result) == read_error(*request),
{
    match validate_target(request.target.as_str()) {
        Err(error) => {
            return Err(error);
        },
        Ok(()) => {},
    }
    if request.options.sort.len() > 0 {
        return Err(unsupported("Pinecone vector reads do not expose generic sort ordering"));
    }
    Ok(())
}

/// A pair for each of some identities.
pub open spec fn id_pairs(ids: Seq<Seq<char>>) -> Seq<(Seq<char>, Seq<char>)> {
    Seq::new(ids.len(), |i: int| ("ids"@, ids[i]))
}

/// A pair for each of some identities.
fn write_id_pairs(ids: &Vec<String>) -> (result: Vec<(String, String)>)
    ensures
        pairs(result@) == id_pairs(texts(ids@)),
{
    let mut result: Vec<(String, String)> = Vec::new();
    let mut i: usize = 0;
    while i < ids.len()
        invariant
            i <= ids@.len(),
            result@.len() == i,
            forall|j: int|
                0 <= j < i ==> (#[trigger] result@[j]).0@ == "ids"@ && result@[j].1@ == ids@[j]@,
        decreases ids@.len() - i,
    {
        result.push(("ids".to_owned(), ids[i].clone()));
        i = i + 1;
    }
    assert(pairs(result@) =~= id_pairs(texts(ids@)));
    result
}

/// The request of a read once the data URL is known: a fetch where a filter names identities, and
/// otherwise a listing.
pub open spec fn read_call(
    context: ConnectorContext,
    profile: ConnectionProfile,
    request: ReadRequest,
    base: EndpointModel,
) -> Result<(RequestModel, ReadingModel), ErrorModel> {
    let namespace = text_option(profile, "namespace"@);
    match read_error(request) {
        Some(error) => Err(error),
        None => match rows_result(context, profile, request.options.limit) {
            Err(error) => Err(error),
            Ok(limit) => match request.filter {
                Some(filter) => if request.options.cursor is Some {
                    Err(
                        unsupported_request(
                            "Pinecone fetch-by-id does not use a pagination cursor"@,
                        ),
                    )
                } else {
                    match filter_ids(filter, names_of(["id", "_id"]@)) {
                        Err(error) => Err(error),
                        Ok(ids) => if ids.len() > limit {
                            Err(
                                invalid_request(
                                    "Pinecone fetch contains more ids than the requested row limit"@,
                                ),
                            )
                        } else {
                            call_of(
                                begun_result(
                                    data_request(
                                        base,
                                        MethodModel::Get,
                                        names_of(["vectors", "fetch"]@),
                                        with_parameter(id_pairs(ids), "namespace"@, namespace),
                                        BodyModel::Empty,
                                    ),
                                ),
                                ReadingModel::Fetch { fields: texts(request.fields@) },
                            )
                        },
                    }
                },
                None => call_of(
                    data_request(
                        base,
                        MethodModel::Get,
                        names_of(["vectors", "list"]@),
                        with_parameter(
                            with_parameter(
                                Seq::empty().push(("limit"@, decimal(limit as nat))),
                                "paginationToken"@,
                                optional_text(request.options.cursor),
                            ),
                            "namespace"@,
                            namespace,
                        ),
                        BodyModel::Empty,
                    ),
                    ReadingModel::List,
                ),
            },
        },
    }
}

/// Makes the request of a read once the data URL is known.
pub fn continue_read(
    context: &ConnectorContext,
    profile: &ConnectionProfile,
    request: &ReadRequest,
    base: &Endpoint,
) -> (result: Result<PineconeCall, ConnectorError>)
    ensures
        is_call_result(result, read_call(*context, *profile, *request, base@)),
{
    match check_read(request) {
        Err(error) => {
            return Err(error);
        },
        Ok(()) => {},
    }
    let limit: usize = match effective_rows(context, profile, request.options.limit) {
        Err(error) => {
            return Err(error);
        },
        Ok(limit) => limit,
    };
    let namespace = find_text_option(profile, "namespace");
    let filter = match &request.filter {
        None => {
            let mut query: Vec<(String, String)> = Vec::new();
            query.push(("limit".to_owned(), decimal_text(limit as u64)));
            add_parameter(&mut query, "paginationToken", borrowed(&request.options.cursor));
            add_parameter(&mut query, "namespace", namespace);
            let segments = owned_texts(&["vectors", "list"]);
            return make_call(
                make_data_request(base, HttpMethod::Get, &segments, query, HttpBody::Empty),
                PineconeReading::List,
            );
        },
        Some(filter) => filter,
    };
    if request.options.cursor.is_some() {
        return Err(unsupported("Pinecone fetch-by-id does not use a pagination cursor"));
    }
    let ids = match extract_ids(filter, &["id", "_id"]) {
        Err(error) => {
            return Err(error);
        },
        Ok(ids) => ids,
    };
    assert(texts(ids@).len() == ids@.len());
    if ids.len() > limit {
        return Err(invalid("Pinecone fetch contains more ids than the requested row limit"));
    }
    let mut query = write_id_pairs(&ids);
    add_parameter(&mut query, "namespace", namespace);
    let segments = owned_texts(&["vectors", "fetch"]);
    make_call(
        begin_query(make_data_request(base, HttpMethod::Get, &segments, query, HttpBody::Empty)),
        PineconeReading::Fetch { fields: clone_texts(&request.fields) },
    )
}

/// The body of a query in the product's own form, checked before the data URL is known.
pub open spec fn search_body(
    context: ConnectorContext,
    profile: ConnectionProfile,
    request: SearchRequest,
) -> Result<JsonModel, ErrorModel> {
    match target_error(request.target@) {
        Some(error) => Err(error),
        None => if request.options.cursor is Some || request.options.sort@.len() > 0 {
            Err(
                unsupported_request("Pinecone query does not map generic cursor or sort options"@),
            )
        } else {
            match rows_result(context, profile, request.options.limit) {
                Err(error) => Err(error),
                Ok(limit) => match request.query@ {
                    JsonModel::Object(list) => {
                        let body = with_member(
                            list,
                            "topK"@,
                            JsonModel::Number(decimal(limit as nat)),
                        );
                        Ok(
                            JsonModel::Object(
                                match text_option(profile, "namespace"@) {
                                    Some(namespace) if namespace.len() > 0 && named(
                                        body,
                                        "namespace"@,
                                    ) is None => with_member(
                                        body,
                                        "namespace"@,
                                        JsonModel::Text(namespace),
                                    ),
                                    _ => body,
                                },
                            ),
                        )
                    },
                    _ => Err(invalid_request("Pinecone query must be a JSON object"@)),
                },
            }
        },
    }
}

/// Makes the body of a query in the product's own form.
fn make_search_body(context: &ConnectorContext, profile: &ConnectionProfile, request: &SearchRequest) -> (result:
    Result<Json, ConnectorError>)
    ensures
        is_json_result(result, search_body(*context, *profile, *request)),
{
    match validate_target(request.target.as_str()) {
        Err(error) => {
            return Err(error);
        },
        Ok(()) => {},
    }
    if request.options.cursor.is_some() || request.options.sort.len() > 0 {
        return Err(unsupported("Pinecone query does not map generic cursor or sort options"));
    }
    let limit: usize = match effective_rows(context, profile, request.options.limit) {
        Err(error) => {
            return Err(error);
        },
        Ok(limit) => limit,
    };
    let mut body = match &request.query {
        Json::Object(list) => JsonObject { members: copy_members(list) },
        _ => {
            return Err(invalid("Pinecone query must be a JSON object"));
        },
    };
    body.set("topK", number(limit as u64));
    match find_text_option(profile, "namespace") {
        Some(namespace) => {
            if !namespace.is_empty() && find(&body.members, "namespace").is_none() {
                body.set("namespace", text(namespace));
            }
        },
        None => {},
    }
    Ok(body.finish())
}

/// The namespace of a request, or else of the connection, where it is not empty.
pub open spec fn namespace_of(profile: ConnectionProfile, namespace: Option<Seq<char>>) -> Option<
    Seq<char>,
> {
    let found = match namespace {
        Some(namespace) => Some(namespace),
        None => text_option(profile, "namespace"@),
    };
    match found {
        Some(namespace) if namespace.len() > 0 => Some(namespace),
        _ => None,
    }
}

/// The namespace of a request, or else of the connection, where it is not empty.
fn find_namespace<'a>(profile: &'a ConnectionProfile, namespace: &'a Option<String>) -> (result: Option<
    &'a str,
>)
    ensures
        optional_str(result) == namespace_of(*profile, optional_text(*namespace)),
{
    let found = match namespace {
        Some(namespace) => Some(namespace.as_str()),
        None => find_text_option(profile, "namespace"),
    };
    match found {
        Some(namespace) => if namespace.is_empty() {
            None
        } else {
            Some(namespace)
        },
        None => None,
    }
}

/// The body of a search for the nearest vectors, checked before the data URL is known.
pub open spec fn vector_body(
    context: ConnectorContext,
    profile: ConnectionProfile,
    request: VectorSearchRequest,
) -> Result<JsonModel, ErrorModel> {
    match target_error(request.target@) {
        Some(error) => Err(error),
        None => match rows_result(context, profile, request.top_k) {
            Err(error) => Err(error),
            Ok(limit) => {
                let body = Seq::empty().push(
                    ("vector"@, JsonModel::Array(vector_documents(doubles(request.vector@)))),
                ).push(("topK"@, JsonModel::Number(decimal(limit as nat)))).push(
                    ("includeValues"@, JsonModel::Bool(request.include_vectors)),
                ).push(("includeMetadata"@, JsonModel::Bool(true)));
                let body = match request.filter {
                    Some(filter) if !(filter@ is Null) => body.push(("filter"@, filter@)),
                    _ => body,
                };
                Ok(
                    JsonModel::Object(
                        match namespace_of(profile, optional_text(request.namespace)) {
                            Some(namespace) => body.push(
                                ("namespace"@, JsonModel::Text(namespace)),
                            ),
                            None => body,
                        },
                    ),
                )
            },
        },
    }
}

/// Makes the body of a search for the nearest vectors.
fn make_vector_body(
    context: &ConnectorContext,
    profile: &ConnectionProfile,
    request: &VectorSearchRequest,
) -> (result: Result<Json, ConnectorError>)
    ensures
        is_json_result(result, vector_body(*context, *profile, *request)),
{
    match validate_target(request.target.as_str()) {
        Err(error) => {
            return Err(error);
        },
        Ok(()) => {},
    }
    let limit: usize = match effective_rows(context, profile, request.top_k) {
        Err(error) => {
            return Err(error);
        },
        Ok(limit) => limit,
    };
    let mut body = JsonObject::new();
    body.put("vector", write_vector(&request.vector));
    body.put("topK", number(limit as u64));
    body.put("includeValues", Json::Bool(request.include_vectors));
    body.put("includeMetadata", Json::Bool(true));
    match &request.filter {
        None => {},
        Some(Json::Null) => {},
        Some(filter) => {
            body.put("filter", filter.copy());
        },
    }
    match find_namespace(profile, &request.namespace) {
        Some(namespace) => {
            body.put("namespace", text(namespace));
        },
        None => {},
    }
    Ok(body.finish())
}

/// The document of a vector with what belongs to it.
pub open spec fn point_document(point: VectorPoint) -> Result<JsonModel, ErrorModel> {
    match record_json(point.metadata@) {
        Err(error) => Err(error),
        Ok(metadata) => Ok(
            JsonModel::Object(
                Seq::empty().push(("id"@, JsonModel::Text(point.id@))).push(
                    ("values"@, JsonModel::Array(vector_documents(doubles(point.vector@)))),
                ).push(("metadata"@, metadata)),
            ),
        ),
    }
}

/// The documents of vectors; the error of the first that has one.
pub open spec fn point_documents(points: Seq<VectorPoint>) -> Result<Seq<JsonModel>, ErrorModel>
    decreases points.len(),
{
    if points.len() == 0 {
        Ok(Seq::empty())
    } else {
        match point_documents(points.drop_last()) {
            Err(error) => Err(error),
            Ok(before) => match point_document(points.last()) {
                Err(error) => Err(error),
                Ok(document) => Ok(before.push(document)),
            },
        }
    }
}

/// Where some first vectors have an error, all of them have that one.
proof fn lemma_points_fail_early(points: Seq<VectorPoint>, count: int)
    requires
        0 <= count <= points.len(),
        point_documents(points.subrange(0, count)) is Err,
    ensures
        point_documents(points) == point_documents(points.subrange(0, count)),
    decreases points.len(),
{
    if count == points.len() {
        assert(points.subrange(0, count) =~= points);
    } else {
        assert(points.drop_last().subrange(0, count) =~= points.subrange(0, count));
        lemma_points_fail_early(points.drop_last(), count);
    }
}

/// Writes the documents of vectors.
fn write_points(points: &Vec<VectorPoint>) -> (result: Result<Vec<Json>, ConnectorError>)
    ensures
        is_json_list_result(result, point_documents(points@)),
{
    let ghost all = points@;
    let mut items: Vec<Json> = Vec::new();
    let mut i: usize = 0;
    assert(all.subrange(0, 0) =~= Seq::<VectorPoint>::empty());
    while i < points.len()
        invariant
            i <= points@.len(),
            all == points@,
            point_documents(all.subrange(0, i as int)) == Ok::<Seq<JsonModel>, ErrorModel>(
                documents(items@),
            ),
        decreases points@.len() - i,
    {
        let point = &points[i];
        assert(all.subrange(0, i + 1).drop_last() =~= all.subrange(0, i as int));
        let metadata = match record_to_json(&point.metadata) {
            Err(error) => {
                proof {
                    lemma_points_fail_early(all, i + 1);
                }
                return Err(error);
            },
            Ok(metadata) => metadata,
        };
        let mut object = JsonObject::new();
        object.put("id", text(point.id.as_str()));
        object.put("values", write_vector(&point.vector));
        object.put("metadata", metadata);
        items.push(object.finish());
        i = i + 1;
    }
    assert(all.subrange(0, i as int) =~= all);
    Ok(items)
}

/// The body of a write of vectors, checked before the data URL is known.
pub open spec fn upsert_body(profile: ConnectionProfile, request: VectorUpsertRequest) -> Result<
    JsonModel,
    ErrorModel,
> {
    match target_error(request.target@) {
        Some(error) => Err(error),
        None => match affected_error(profile, profile.policy.max_affected, request.points@.len()) {
            Some(error) => Err(error),
            None => match point_documents(request.points@) {
                Err(error) => Err(error),
                Ok(items) => {
                    let body = Seq::empty().push(("vectors"@, JsonModel::Array(items)));
                    Ok(
                        JsonModel::Object(
                            match namespace_of(profile, optional_text(request.namespace)) {
                                Some(namespace) => body.push(
                                    ("namespace"@, JsonModel::Text(namespace)),
                                ),
                                None => body,
                            },
                        ),
                    )
                },
            },
        },
    }
}

/// Makes the body of a write of vectors.
fn make_upsert_body(profile: &ConnectionProfile, request: &VectorUpsertRequest) -> (result: Result<
    Json,
    ConnectorError,
>)
    ensures
        is_json_result(result, upsert_body(*profile, *request)),
{
    match validate_target(request.target.as_str()) {
        Err(error) => {
            return Err(error);
        },
        Ok(()) => {},
    }
    match validate_affected(profile, profile.policy.max_affected, request.points.len()) {
        Err(error) => {
            return Err(error);
        },
        Ok(()) => {},
    }
    let items = match write_points(&request.points) {
        Err(error) => {
            return Err(error);
        },
        Ok(items) => items,
    };
    let mut body = JsonObject::new();
    body.put("vectors", Json::Array(items));
    match find_namespace(profile, &request.namespace) {
        Some(namespace) => {
            body.put("namespace", text(namespace));
        },
        None => {},
    }
    Ok(body.finish())
}

/// The identities of a removal, checked before the data URL is known.
pub open spec fn delete_ids(profile: ConnectionProfile, request: DeleteRequest) -> Result<
    Seq<Seq<char>>,
    ErrorModel,
> {
    match target_error(request.target@) {
        Some(error) => Err(error),
        None => match filter_ids(request.filter, names_of(["id", "_id"]@)) {
            Err(error) => Err(error),
            Ok(ids) => match affected_error(profile, request.max_affected, ids.len()) {
                Some(error) => Err(error),
                None => Ok(ids),
            },
        },
    }
}

/// The identities of a removal.
fn find_delete_ids(profile: &ConnectionProfile, request: &DeleteRequest) -> (result: Result<
    Vec<String>,
    ConnectorError,
>)
    ensures
        is_texts_result(result, delete_ids(*profile, *request)),
{
    match validate_target(request.target.as_str()) {
        Err(error) => {
            return Err(error);
        },
        Ok(()) => {},
    }
    let ids = match extract_ids(&request.filter, &["id", "_id"]) {
        Err(error) => {
            return Err(error);
        },
        Ok(ids) => ids,
    };
    assert(texts(ids@).len() == ids@.len());
    match validate_affected(profile, request.max_affected, ids.len()) {
        Err(error) => Err(error),
        Ok(()) => Ok(ids),
    }
}

/// The body of a removal.
pub open spec fn delete_body(profile: ConnectionProfile, ids: Seq<Seq<char>>) -> JsonModel {
    JsonModel::Object(
        Seq::empty().push(("ids"@, JsonModel::Array(text_documents(ids)))).push(
            (
                "namespace"@,
                JsonModel::Text(
                    match text_option(profile, "namespace"@) {
                        Some(namespace) => namespace,
                        None => Seq::empty(),
                    },
                ),
            ),
        ),
    )
}

/// The envelope of a native query, checked.
pub open spec fn checked_envelope(envelope: Result<EnvelopeModel, ErrorModel>) -> Result<
    EnvelopeModel,
    ErrorModel,
> {
    match envelope {
        Err(error) => Err(error),
        Ok(envelope) => if is_native_read(envelope.method, envelope.path) {
            Ok(envelope)
        } else {
            Err(
                failure(
                    ErrorCategory::PermissionDenied,
                    "native Pinecone request is not an explicitly supported read endpoint"@,
                ),
            )
        },
    }
}

/// The envelope of a native query.
pub open spec fn native_envelope(request: NativeRequest) -> Result<EnvelopeModel, ErrorModel> {
    match language_error(request.language@, names_of(["pinecone_http", "json"]@)) {
        Some(error) => Err(error),
        None => match parameters_error(request) {
            Some(error) => Err(error),
            None => checked_envelope(
                envelope_result(
                    envelope_document(encode_utf8(request.statement@)),
                    true,
                    names_of(
                        [
                            "/indexes",
                            "/query",
                            "/vectors/fetch",
                            "/vectors/list",
                            "/describe_index_stats",
                            "/namespaces",
                        ]@,
                    ),
                ),
            ),
        },
    }
}

/// Refuses a native request that is not a read.
pub fn check_envelope(envelope: NativeHttpEnvelope) -> (result: Result<
    NativeHttpEnvelope,
    ConnectorError,
>)
    ensures
        is_envelope_result(result, checked_envelope(Ok(envelope@))),
{
    if pinecone_native_read_path(&envelope.method, envelope.path.as_str()) {
        Ok(envelope)
    } else {
        Err(
            ConnectorError::new(
                ErrorCategory::PermissionDenied,
                "native Pinecone request is not an explicitly supported read endpoint",
            ),
        )
    }
}

/// Reads the envelope of a native query.
fn read_envelope(request: &NativeRequest) -> (result: Result<NativeHttpEnvelope, ConnectorError>)
    ensures
        is_envelope_result(result, native_envelope(*request)),
{
    match ensure_language(request.language.as_str(), &["pinecone_http", "json"]) {
        Err(error) => {
            return Err(error);
        },
        Ok(()) => {},
    }
    match validate_native_parameters(request) {
        Err(error) => {
            return Err(error);
        },
        Ok(()) => {},
    }
    match parse_native_envelope(
        request.statement.as_str(),
        true,
        &[
            "/indexes",
            "/query",
            "/vectors/fetch",
            "/vectors/list",
            "/describe_index_stats",
            "/namespaces",
        ],
    ) {
        Err(error) => Err(error),
        Ok(envelope) => check_envelope(envelope),
    }
}

/// How an operation begins: with the request itself, or with the search for the data URL of an
/// index.
#[derive(Debug)]
pub enum PineconeStart {
    Direct(PineconeCall),
    Index(String),
}

/// What a [`PineconeStart`] is.
pub enum StartModel {
    Direct(RequestModel, ReadingModel),
    Index(Seq<char>),
}

impl View for PineconeStart {
    type V = StartModel;

    open spec fn view(&self) -> StartModel {
        match *self {
            PineconeStart::Direct(call) => StartModel::Direct(call.request@, call.reading@),
            PineconeStart::Index(index) => StartModel::Index(index@),
        }
    }
}

/// An index, unless there was an error before.
pub open spec fn index_unless<T>(before: Result<T, ErrorModel>, index: Seq<char>) -> Result<
    StartModel,
    ErrorModel,
> {
    match before {
        Err(error) => Err(error),
        Ok(_) => Ok(StartModel::Index(index)),
    }
}

/// How an operation begins.
pub open spec fn operation_start(
    context: ConnectorContext,
    profile: ConnectionProfile,
    operation: DataOperation,
) -> Result<StartModel, ErrorModel> {
    match operation {
        DataOperation::Read(request) => match read_error(request) {
            Some(error) => Err(error),
            None => Ok(StartModel::Index(request.target@)),
        },
        DataOperation::Search(request) => index_unless(
            search_body(context, profile, request),
            request.target@,
        ),
        DataOperation::VectorSearch(request) => index_unless(
            vector_body(context, profile, request),
            request.target@,
        ),
        DataOperation::VectorUpsert(request) => index_unless(
            upsert_body(profile, request),
            request.target@,
        ),
        DataOperation::Delete(request) => index_unless(
            delete_ids(profile, request),
            request.target@,
        ),
        DataOperation::NativeQuery(request) => match native_envelope(request) {
            Err(error) => Err(error),
            Ok(envelope) => if begins_with(envelope.path, "/indexes"@) {
                match native_result(profile, envelope) {
                    Err(error) => Err(error),
                    Ok(request) => Ok(StartModel::Direct(request, ReadingModel::Native)),
                }
            } else {
                match optional_text(profile.database) {
                    Some(index) => Ok(StartModel::Index(index)),
                    None => Err(
                        invalid_request(
                            "native Pinecone data query requires profile.database to name an index"@,
                        ),
                    ),
                }
            },
        },
        _ => Err(unsupported_request("operation is not supported by Pinecone"@)),
    }
}

/// The native request under the data URL of an index.
pub open spec fn native_data_call(envelope: EnvelopeModel, base: EndpointModel) -> Result<
    (RequestModel, ReadingModel),
    ErrorModel,
> {
    call_of(
        match walked_result(base, split_on(without_leading(envelope.path, '/'), '/')) {
            Err(error) => Err(error),
            Ok(url) => Ok(
                with_query_begun(
                    RequestModel {
                        method: envelope.method,
                        url,
                        query: envelope.query,
                        body: match envelope.body {
                            Some(body) => BodyModel::Json(body),
                            None => BodyModel::Empty,
                        },
                        timeout_ms: None,
                    },
                ),
            ),
        },
        ReadingModel::Native,
    )
}

/// The request of an operation once the data URL is known.
pub open spec fn operation_call(
    context: ConnectorContext,
    profile: ConnectionProfile,
    operation: DataOperation,
    base: EndpointModel,
) -> Result<(RequestModel, ReadingModel), ErrorModel> {
    match operation {
        DataOperation::Read(request) => read_call(context, profile, request, base),
        DataOperation::Search(request) => match search_body(context, profile, request) {
            Err(error) => Err(error),
            Ok(body) => call_of(
                data_request(
                    base,
                    MethodModel::Post,
                    names_of(["query"]@),
                    Seq::empty(),
                    BodyModel::Json(body),
                ),
                ReadingModel::Matches,
            ),
        },
        DataOperation::VectorSearch(request) => match vector_body(context, profile, request) {
            Err(error) => Err(error),
            Ok(body) => call_of(
                data_request(
                    base,
                    MethodModel::Post,
                    names_of(["query"]@),
                    Seq::empty(),
                    BodyModel::Json(body),
                ),
                ReadingModel::Matches,
            ),
        },
        DataOperation::VectorUpsert(request) => match upsert_body(profile, request) {
            Err(error) => Err(error),
            Ok(body) => call_of(
                data_request(
                    base,
                    MethodModel::Post,
                    names_of(["vectors", "upsert"]@),
                    Seq::empty(),
                    BodyModel::Json(body),
                ),
                ReadingModel::Upsert { expected: request.points@.len() as u64 },
            ),
        },
        DataOperation::Delete(request) => match delete_ids(profile, request) {
            Err(error) => Err(error),
            Ok(ids) => call_of(
                data_request(
                    base,
                    MethodModel::Post,
                    names_of(["vectors", "delete"]@),
                    Seq::empty(),
                    BodyModel::Json(delete_body(profile, ids)),
                ),
                ReadingModel::Delete { count: ids.len() as u64 },
            ),
        },
        DataOperation::NativeQuery(request) => match native_envelope(request) {
            Err(error) => Err(error),
            Ok(envelope) => native_data_call(envelope, base),
        },
        _ => Err(unsupported_request("operation is not supported by Pinecone"@)),
    }
}

/// Makes a request with a JSON body under the data URL of an index.
fn post_data(base: &Endpoint, segments: &[&str], body: Json, reading: PineconeReading) -> (result: Result<
    PineconeCall,
    ConnectorError,
>)
    ensures
        is_call_result(
            result,
            call_of(
                data_request(
                    base@,
                    MethodModel::Post,
                    names_of(segments@),
                    Seq::empty(),
                    BodyModel::Json(body@),
                ),
                reading@,
            ),
        ),
{
    let list = owned_texts(segments);
    make_call(
        make_data_request(base, HttpMethod::Post, &list, Vec::new(), HttpBody::Json(body)),
        reading,
    )
}

/// Makes a native request under the data URL of an index.
pub fn continue_native(envelope: NativeHttpEnvelope, base: &Endpoint) -> (result: Result<
    PineconeCall,
    ConnectorError,
>)
    ensures
        is_call_result(result, native_data_call(envelope@, base@)),
{
    let path = trim_leading(envelope.path.as_str(), '/');
    let segments = split(path.as_str(), '/');
    let body = match envelope.body {
        Some(body) => HttpBody::Json(body),
        None => HttpBody::Empty,
    };
    assert(texts(segments@).subrange(0, segments@.len() as int) =~= texts(segments@));
    let url = match walk_segments(base, &segments, 0) {
        Err(error) => {
            return Err(error);
        },
        Ok(url) => url,
    };
    make_call(
        begin_query(
            Ok(
                HttpRequest {
                    method: envelope.method,
                    url,
                    query: envelope.query,
                    body,
                    timeout_ms: None,
                },
            ),
        ),
        PineconeReading::Native,
    )
}

/// The records of an answer.
pub open spec fn answer_records(reading: ReadingModel, answer: JsonModel) -> Result<
    Seq<RecordModel>,
    ErrorModel,
> {
    match reading {
        ReadingModel::Fetch { fields } => fetched_records(answer, fields),
        ReadingModel::List => listed_records(answer),
        ReadingModel::Matches => match_records(answer),
        ReadingModel::Native => Ok(generic_records(answer)),
        _ => Ok(Seq::empty()),
    }
}

/// The result of an operation whose answer holds records of the given encoded sizes. A read is
/// answered whole or not at all.
pub open spec fn operation_outcome(
    context: ConnectorContext,
    profile: ConnectionProfile,
    reading: ReadingModel,
    answer: JsonModel,
    sizes: Seq<u64>,
    elapsed_ms: u64,
) -> Result<ResultModel, ErrorModel> {
    match answer_records(reading, answer) {
        Err(error) => Err(error),
        Ok(found) => match reading {
            ReadingModel::Fetch { .. } | ReadingModel::List => match page_error(
                sizes,
                byte_limit(context, profile),
            ) {
                Some(error) => Err(error),
                None => finished(
                    context,
                    profile,
                    found,
                    sizes,
                    if reading is List {
                        listed_cursor(answer)
                    } else {
                        None
                    },
                    0,
                    WriteOutcome::NotApplicable,
                    elapsed_ms,
                ),
            },
            ReadingModel::Matches | ReadingModel::Native => finished_read(
                context,
                profile,
                found,
                sizes,
                elapsed_ms,
            ),
            ReadingModel::Upsert { expected } => match confirmed_count(answer, expected) {
                Err(error) => Err(error),
                Ok(affected) => finished_write(context, profile, affected, elapsed_ms),
            },
            ReadingModel::Delete { count } => finished_write(context, profile, count, elapsed_ms),
        },
    }
}

impl PineconeReading {
    /// Reads the records of an answer.
    pub fn records(&self, answer: &Json) -> (result: Result<Vec<DbRecord>, ConnectorError>)
        ensures
            is_records_result(result, answer_records(self@, answer@)),
    {
        match self {
            PineconeReading::Fetch { fields } => read_fetched(answer, fields),
            PineconeReading::List => match find_list(answer, "vectors") {
                None => Err(protocol("Pinecone list response omitted vectors")),
                Some(list) => Ok(json_to_records(list)),
            },
            PineconeReading::Matches => pinecone_matches(answer),
            PineconeReading::Native => Ok(records_from_generic_json(answer)),
            _ => Ok(Vec::new()),
        }
    }

    /// Makes the result of an operation whose answer holds records of the given encoded sizes.
    pub fn finish(
        &self,
        context: &ConnectorContext,
        profile: &ConnectionProfile,
        answer: &Json,
        sizes: &Vec<u64>,
        elapsed_ms: u64,
    ) -> (result: Result<OperationResult, ConnectorError>)
        requires
            answer_records(self@, answer@) matches Ok(found) ==> sizes@.len() == found.len(),
        ensures
            is_result_of(
                result,
                operation_outcome(*context, *profile, self@, answer@, sizes@, elapsed_ms),
            ),
    {
        let found = match self.records(answer) {
            Err(error) => {
                return Err(error);
            },
            Ok(found) => found,
        };
        assert(crate::value::records(found@).len() == found@.len());
        match self {
            PineconeReading::Fetch { .. } => {
                match ensure_read_page_fits(sizes, effective_bytes(context, profile)) {
                    Err(error) => {
                        return Err(error);
                    },
                    Ok(()) => {},
                }
                finish_read(context, profile, found, sizes, elapsed_ms)
            },
            PineconeReading::List => {
                match ensure_read_page_fits(sizes, effective_bytes(context, profile)) {
                    Err(error) => {
                        return Err(error);
                    },
                    Ok(()) => {},
                }
                let next_cursor = match as_text(find_nested(answer, "pagination", "next")) {
                    Some(cursor) => if cursor.is_empty() {
                        None
                    } else {
                        Some(cursor.to_owned())
                    },
                    None => None,
                };
                let finish = Finish {
                    next_cursor,
                    affected: 0,
                    outcome: WriteOutcome::NotApplicable,
                    elapsed_ms,
                };
                finish_result(context, profile, found, sizes, finish)
            },
            PineconeReading::Matches | PineconeReading::Native => finish_read(
                context,
                profile,
                found,
                sizes,
                elapsed_ms,
            ),
            PineconeReading::Upsert { expected } => match confirmed_pinecone_upsert_count(
                answer,
                *expected,
            ) {
                Err(error) => Err(error),
                Ok(affected) => finish_write(context, profile, affected, elapsed_ms),
            },
            PineconeReading::Delete { count } => finish_write(context, profile, *count, elapsed_ms),
        }
    }
}

/// The page of the catalog that the indexes from the cursor on make, whose encoded sizes are
/// given.
pub open spec fn catalog_result(
    context: ConnectorContext,
    profile: ConnectionProfile,
    query: CatalogQuery,
    found: Seq<EntityModel>,
    sizes: Seq<u64>,
) -> Result<PageModel, ErrorModel> {
    match cursor_result(optional_text(query.cursor)) {
        Err(error) => Err(error),
        Ok(offset) => match rows_result(context, profile, query.limit) {
            Err(error) => Err(error),
            Ok(limit) => if limit == usize::MAX {
                Err(invalid_request("catalog limit is too large"@))
            } else {
                match bounded_result(context, profile, found, sizes, query.limit) {
                    Err(error) => Err(error),
                    Ok(shown) => if found.len() <= limit {
                        Ok(PageModel { entities: shown, next_cursor: None })
                    } else if offset + limit > usize::MAX {
                        Err(invalid_request("Pinecone catalog cursor offset is too large"@))
                    } else {
                        Ok(
                            PageModel {
                                entities: shown,
                                next_cursor: Some(decimal((offset + limit) as nat)),
                            },
                        )
                    },
                }
            },
        },
    }
}

/// How the indexes of an answer are read.
pub open spec fn index_source() -> EntitySource {
    EntitySource {
        namespace: "index",
        kind: "vector_index",
        name: Some("name"),
        comment: CommentSource::Labelled { label: "state=", outer: "status", inner: "state" },
    }
}

/// The indexes that a catalog query found.
pub open spec fn found_indexes(answer: JsonModel, query: CatalogQuery) -> Result<
    Seq<EntityModel>,
    ErrorModel,
> {
    match list_in(answer, "indexes"@) {
        None => Err(protocol_failure("Pinecone response omitted indexes"@)),
        Some(indexes) => found_entities(indexes, index_source(), query),
    }
}

/// What the description of an index says of it.
pub open spec fn index_description(name: Seq<char>, answer: JsonModel) -> DescriptionModel {
    DescriptionModel {
        entity: EntityModel {
            id: name,
            namespace: Some("index"@),
            name,
            kind: "vector_index"@,
            comment: None,
        },
        fields: Seq::empty().push(
            with_entry(
                with_entry(
                    with_entry(Seq::empty(), "name"@, ValueModel::String("values"@)),
                    "type"@,
                    ValueModel::String("vector"@),
                ),
                "dimension"@,
                member_value(answer, "dimension"@),
            ),
        ),
        metadata: with_members(
            Seq::empty(),
            answer,
            names_of(["dimension", "metric", "host", "deletion_protection", "status", "spec"]@),
        ),
        truncated: false,
        warnings: Seq::empty(),
    }
}

/// What the connector for Pinecone can do.
pub open spec fn pinecone_capabilities() -> Seq<Capability> {
    seq![Capability::TestConnection].push(Capability::Discover).push(Capability::Describe).push(
        Capability::Read,
    ).push(Capability::Upsert).push(Capability::Delete).push(Capability::Batch).push(
        Capability::NativeQuery,
    ).push(Capability::VectorSearch)
}

/// The connector for Pinecone.
#[derive(Debug, Clone, Copy)]
pub struct PineconeConnector {}

impl Default for PineconeConnector {
    fn default() -> (result: PineconeConnector) {
        PineconeConnector {  }
    }
}

impl PineconeConnector {
    /// What the connector says of itself.
    pub fn manifest(&self) -> (result: ConnectorManifest)
        ensures
            result.id@ == "pinecone-2025-10"@,
            result.display_name@ == "Pinecone"@,
            result.product == Product::Pinecone,
            result.api_mode@ == "pinecone_2025_10"@,
            result.driver@ == "pinecone-http-spec"@,
            result.driver_version@ == "2025-10"@,
            result.status == ConnectorStatus::Experimental,
            result.capabilities@ == pinecone_capabilities(),
            result.auth_kinds@ == seq![AuthKind::ApiKey],
            texts(result.limitations@) == seq![
                "requires the Pinecone 2025-10 database API"@,
            ].push("plaintext HTTP is accepted only on loopback for Pinecone Local"@).push(
                "delete is restricted to explicit record ids"@,
            ).push("index creation, configuration, backup, and deletion are not exposed"@).push(
                "idempotency keys are enforced by the local runtime, not sent to Pinecone"@,
            ),
    {
        let mut capabilities: Vec<Capability> = Vec::new();
        capabilities.push(Capability::TestConnection);
        capabilities.push(Capability::Discover);
        capabilities.push(Capability::Describe);
        capabilities.push(Capability::Read);
        capabilities.push(Capability::Upsert);
        capabilities.push(Capability::Delete);
        capabilities.push(Capability::Batch);
        capabilities.push(Capability::NativeQuery);
        capabilities.push(Capability::VectorSearch);
        let mut auth_kinds: Vec<AuthKind> = Vec::new();
        auth_kinds.push(AuthKind::ApiKey);
        let mut limitations: Vec<String> = Vec::new();
        limitations.push("requires the Pinecone 2025-10 database API".to_owned());
        limitations.push(
            "plaintext HTTP is accepted only on loopback for Pinecone Local".to_owned(),
        );
        limitations.push("delete is restricted to explicit record ids".to_owned());
        limitations.push(
            "index creation, configuration, backup, and deletion are not exposed".to_owned(),
        );
        limitations.push(
            "idempotency keys are enforced by the local runtime, not sent to Pinecone".to_owned(),
        );
        ConnectorManifest {
            id: "pinecone-2025-10".to_owned(),
            display_name: "Pinecone".to_owned(),
            product: Product::Pinecone,
            api_mode: "pinecone_2025_10".to_owned(),
            driver: "pinecone-http-spec".to_owned(),
            driver_version: "2025-10".to_owned(),
            status: ConnectorStatus::Experimental,
            capabilities,
            auth_kinds,
            limitations,
        }
    }

    /// Refuses profiles that are not for this connector, and plaintext that leads off the local
    /// machine.
    pub fn validate(profile: &ConnectionProfile) -> (result: Result<(), ConnectorError>)
        ensures
            error_of(result) == (match profile_error(
                *profile,
                Product::Pinecone,
                names_of(["pinecone_2025_10"]@),
            ) {
                Some(error) => Some(error),
                None => plaintext_error(
                    profile.endpoint.scheme@,
                    url_host(profile.endpoint.text@),
                ),
            }),
    {
        match validate_profile(profile, Product::Pinecone, &["pinecone_2025_10"]) {
            Err(error) => {
                return Err(error);
            },
            Ok(()) => {},
        }
        validate_pinecone_url(&profile.endpoint)
    }

    /// Refuses a profile and a credential with which no connection could be made.
    pub fn validate_connection_input(
        profile: &ConnectionProfile,
        secret: &SecretMaterial,
    ) -> (result: Result<(), ConnectorError>)
        ensures
            error_of(result) == first_error(
                first_error(
                    profile_error(*profile, Product::Pinecone, names_of(["pinecone_2025_10"]@)),
                    plaintext_error(profile.endpoint.scheme@, url_host(profile.endpoint.text@)),
                ),
                failing(
                    client_result(
                        *profile,
                        secret.kind,
                        secret.fields@,
                        AuthStyle::RequiredApiKeyHeader,
                        Seq::empty().push(("x-pinecone-api-version"@, "2025-10"@)),
                    ),
                ),
            ),
    {
        match Self::validate(profile) {
            Err(error) => {
                return Err(error);
            },
            Ok(_) => {},
        }
        match Self::client(profile, secret) {
            Err(error) => Err(error),
            Ok(_) => Ok(()),
        }
    }

    /// How the client of a connection is set up: every request names the version of the API.
    pub fn client(profile: &ConnectionProfile, secret: &SecretMaterial) -> (result: Result<
        ClientPlan,
        ConnectorError,
    >)
        ensures
            match (
                result,
                client_result(
                    *profile,
                    secret.kind,
                    secret.fields@,
                    AuthStyle::RequiredApiKeyHeader,
                    Seq::empty().push(("x-pinecone-api-version"@, "2025-10"@)),
                ),
            ) {
                (Ok(plan), Ok(wanted)) => plan@ == wanted,
                (Err(error), Err(wanted)) => error@ == wanted,
                _ => false,
            },
    {
        let mut headers: Vec<(String, String)> = Vec::new();
        headers.push(("x-pinecone-api-version".to_owned(), "2025-10".to_owned()));
        client_plan(profile, secret, AuthStyle::RequiredApiKeyHeader, &headers)
    }

    /// The request for the list of indexes.
    pub fn list_request(profile: &ConnectionProfile) -> (result: Result<HttpRequest, ConnectorError>)
        ensures
            is_request_result(
                result,
                api_request(
                    *profile,
                    MethodModel::Get,
                    names_of(["indexes"]@),
                    Seq::empty(),
                    BodyModel::Empty,
                ),
            ),
    {
        make_request(profile, HttpMethod::Get, &["indexes"], Vec::new(), HttpBody::Empty)
    }

    /// What is known of the server once it has listed its indexes.
    pub fn connection_info(profile: &ConnectionProfile, answer: &Json) -> (result: Result<
        ConnectionInfo,
        ConnectorError,
    >)
        ensures
            is_info_result(
                result,
                if list_in(answer@, "indexes"@) is None {
                    Err(mismatch("Pinecone control plane response omitted indexes"@))
                } else {
                    Ok(
                        InfoModel {
                            product_name: "Pinecone"@,
                            product_version: Some("2025-10"@),
                            api_mode: "pinecone_2025_10"@,
                            server_identity: optional_text(profile.endpoint.host),
                            warnings: Seq::empty(),
                        },
                    )
                },
            ),
    {
        if find_list(answer, "indexes").is_none() {
            return Err(mismatch_error("Pinecone control plane response omitted indexes"));
        }
        Ok(
            ConnectionInfo {
                product_name: "Pinecone".to_owned(),
                product_version: Some("2025-10".to_owned()),
                api_mode: "pinecone_2025_10".to_owned(),
                server_identity: clone_optional(&profile.endpoint.host),
                warnings: Vec::new(),
            },
        )
    }

    /// Whether the catalog has nothing of what a query asks for.
    pub fn is_outside(query: &CatalogQuery) -> (result: bool)
        ensures
            result == asks_elsewhere(*query, "index"@),
    {
        is_elsewhere(query, "index")
    }

    /// The indexes that a catalog query found, from its cursor on.
    pub fn catalog_entities(answer: &Json, query: &CatalogQuery) -> (result: Result<
        Vec<CatalogEntity>,
        ConnectorError,
    >)
        ensures
            is_entities_result(result, found_indexes(answer@, *query)),
    {
        match find_list(answer, "indexes") {
            None => Err(protocol("Pinecone response omitted indexes")),
            Some(indexes) => {
                let source = EntitySource {
                    namespace: "index",
                    kind: "vector_index",
                    name: Some("name"),
                    comment: CommentSource::Labelled {
                        label: "state=",
                        outer: "status",
                        inner: "state",
                    },
                };
                read_entities(indexes, &source, query)
            },
        }
    }

    /// Makes a page of the indexes from the cursor on, whose encoded sizes are given.
    pub fn catalog_page(
        context: &ConnectorContext,
        profile: &ConnectionProfile,
        query: &CatalogQuery,
        found: Vec<CatalogEntity>,
        sizes: &Vec<u64>,
    ) -> (result: Result<CatalogPage, ConnectorError>)
        requires
            sizes@.len() == found@.len(),
        ensures
            is_page_result(
                result,
                catalog_result(*context, *profile, *query, entities(found@), sizes@),
            ),
    {
        let offset: usize = match parse_cursor_offset(borrowed(&query.cursor)) {
            Err(error) => {
                return Err(error);
            },
            Ok(offset) => offset,
        };
        let limit: usize = match effective_rows(context, profile, query.limit) {
            Err(error) => {
                return Err(error);
            },
            Ok(limit) => limit,
        };
        if limit == usize::MAX {
            return Err(invalid("catalog limit is too large"));
        }
        assert(crate::model::entities(found@).len() == found@.len());
        let more = found.len() > limit;
        let shown = match bounded_catalog(context, profile, found, sizes, query.limit) {
            Err(error) => {
                return Err(error);
            },
            Ok(shown) => shown,
        };
        if !more {
            return Ok(CatalogPage { entities: shown, next_cursor: None });
        }
        match offset.checked_add(limit) {
            None => Err(invalid("Pinecone catalog cursor offset is too large")),
            Some(next) => Ok(
                CatalogPage { entities: shown, next_cursor: Some(decimal_text(next as u64)) },
            ),
        }
    }

    /// The request for the description of an index.
    pub fn describe_request(profile: &ConnectionProfile, entity_id: &str) -> (result: Result<
        HttpRequest,
        ConnectorError,
    >)
        ensures
            is_request_result(
                result,
                match target_error(entity_id@) {
                    Some(error) => Err(error),
                    None => api_request(
                        *profile,
                        MethodModel::Get,
                        names_of(["indexes"]@).push(entity_id@),
                        Seq::empty(),
                        BodyModel::Empty,
                    ),
                },
            ),
    {
        match validate_target(entity_id) {
            Err(error) => {
                return Err(error);
            },
            Ok(()) => {},
        }
        assert(names_of(["indexes", entity_id]@) =~= names_of(["indexes"]@).push(entity_id@));
        make_request(
            profile,
            HttpMethod::Get,
            &["indexes", entity_id],
            Vec::new(),
            HttpBody::Empty,
        )
    }

    /// Describes an index.
    pub fn describe_entity(entity_id: &str, answer: &Json) -> (result: EntityDescription)
        ensures
            result@ == index_description(entity_id@, answer@),
    {
        let mut field = DbRecord::new();
        field.insert("name".to_owned(), DbValue::String("values".to_owned()));
        field.insert("type".to_owned(), DbValue::String("vector".to_owned()));
        field.insert("dimension".to_owned(), read_member_value(answer, "dimension"));
        let mut fields: Vec<DbRecord> = Vec::new();
        fields.push(field);
        let metadata = add_members(
            DbRecord::new(),
            answer,
            &["dimension", "metric", "host", "deletion_protection", "status", "spec"],
        );
        EntityDescription {
            entity: CatalogEntity {
                id: entity_id.to_owned(),
                namespace: Some("index".to_owned()),
                name: entity_id.to_owned(),
                kind: "vector_index".to_owned(),
                comment: None,
            },
            fields,
            metadata,
            truncated: false,
            warnings: Vec::new(),
        }
    }

    /// Begins an operation.
    pub fn begin_operation(
        context: &ConnectorContext,
        profile: &ConnectionProfile,
        operation: &DataOperation,
    ) -> (result: Result<PineconeStart, ConnectorError>)
        ensures
            match (result, operation_start(*context, *profile, *operation)) {
                (Ok(start), Ok(wanted)) => start@ == wanted,
                (Err(error), Err(wanted)) => error@ == wanted,
                _ => false,
            },
    {
        match operation {
            DataOperation::Read(request) => match check_read(request) {
                Err(error) => Err(error),
                Ok(()) => Ok(PineconeStart::Index(request.target.clone())),
            },
            DataOperation::Search(request) => match make_search_body(context, profile, request) {
                Err(error) => Err(error),
                Ok(_) => Ok(PineconeStart::Index(request.target.clone())),
            },
            DataOperation::VectorSearch(request) => match make_vector_body(
                context,
                profile,
                request,
            ) {
                Err(error) => Err(error),
                Ok(_) => Ok(PineconeStart::Index(request.target.clone())),
            },
            DataOperation::VectorUpsert(request) => match make_upsert_body(profile, request) {
                Err(error) => Err(error),
                Ok(_) => Ok(PineconeStart::Index(request.target.clone())),
            },
            DataOperation::Delete(request) => match find_delete_ids(profile, request) {
                Err(error) => Err(error),
                Ok(_) => Ok(PineconeStart::Index(request.target.clone())),
            },
            DataOperation::NativeQuery(request) => {
                let envelope = match read_envelope(request) {
                    Err(error) => {
                        return Err(error);
                    },
                    Ok(envelope) => envelope,
                };
                if starts_with(envelope.path.as_str(), "/indexes") {
                    return match native_request(profile, envelope) {
                        Err(error) => Err(error),
                        Ok(request) => Ok(
                            PineconeStart::Direct(
                                PineconeCall { request, reading: PineconeReading::Native },
                            ),
                        ),
                    };
                }
                match &profile.database {
                    Some(index) => Ok(PineconeStart::Index(index.clone())),
                    None => Err(
                        invalid(
                            "native Pinecone data query requires profile.database to name an index",
                        ),
                    ),
                }
            },
            _ => Err(unsupported("operation is not supported by Pinecone")),
        }
    }

    /// Makes the request of an operation once the data URL is known.
    pub fn continue_operation(
        context: &ConnectorContext,
        profile: &ConnectionProfile,
        operation: &DataOperation,
        base: &Endpoint,
    ) -> (result: Result<PineconeCall, ConnectorError>)
        ensures
            is_call_result(result, operation_call(*context, *profile, *operation, base@)),
    {
        match operation {
            DataOperation::Read(request) => continue_read(context, profile, request, base),
            DataOperation::Search(request) => match make_search_body(context, profile, request) {
                Err(error) => Err(error),
                Ok(body) => post_data(base, &["query"], body, PineconeReading::Matches),
            },
            DataOperation::VectorSearch(request) => match make_vector_body(
                context,
                profile,
                request,
            ) {
                Err(error) => Err(error),
                Ok(body) => post_data(base, &["query"], body, PineconeReading::Matches),
            },
            DataOperation::VectorUpsert(request) => match make_upsert_body(profile, request) {
                Err(error) => Err(error),
                Ok(body) => post_data(
                    base,
                    &["vectors", "upsert"],
                    body,
                    PineconeReading::Upsert { expected: request.points.len() as u64 },
                ),
            },
            DataOperation::Delete(request) => {
                let ids = match find_delete_ids(profile, request) {
                    Err(error) => {
                        return Err(error);
                    },
                    Ok(ids) => ids,
                };
                assert(texts(ids@).len() == ids@.len());
                let mut body = JsonObject::new();
                body.put("ids", Json::Array(texts_to_json(&ids)));
                proof {
                    reveal_strlit("");
                    assert(""@ =~= Seq::<char>::empty());
                }
                let namespace = match find_text_option(profile, "namespace") {
                    Some(namespace) => namespace,
                    None => "",
                };
                body.put("namespace", text(namespace));
                post_data(
                    base,
                    &["vectors", "delete"],
                    body.finish(),
                    PineconeReading::Delete { count: ids.len() as u64 },
                )
            },
            DataOperation::NativeQuery(request) => match read_envelope(request) {
                Err(error) => Err(error),
                Ok(envelope) => continue_native(envelope, base),
            },
            _ => Err(unsupported("operation is not supported by Pinecone")),
        }
    }
}

/// A native query that is sent only reads.
pub proof fn lemma_native_queries_only_read(envelope: Result<EnvelopeModel, ErrorModel>)
    requires
        checked_envelope(envelope) is Ok,
    ensures
        is_native_read(
            checked_envelope(envelope)->Ok_0.method,
            checked_envelope(envelope)->Ok_0.path,
        ),
        checked_envelope(envelope)->Ok_0.method is Post ==> {
            let path = checked_envelope(envelope)->Ok_0.path;
            path == "/query"@ || path == "/describe_index_stats"@
        },
{
}

/// The connector takes up no operation that its manifest does not name, and in particular no
/// native write.
pub proof fn lemma_only_named_operations_start(
    context: ConnectorContext,
    profile: ConnectionProfile,
    operation: DataOperation,
)
    ensures
        operation_start(context, profile, operation) is Ok ==> covers(
            pinecone_capabilities(),
            operation,
        ),
        !pinecone_capabilities().contains(Capability::NativeExecute),
{
    let list = pinecone_capabilities();
    assert(list[0] == Capability::TestConnection);
    assert(list[1] == Capability::Discover);
    assert(list[2] == Capability::Describe);
    assert(list[3] == Capability::Read);
    assert(list[4] == Capability::Upsert);
    assert(list[5] == Capability::Delete);
    assert(list[6] == Capability::Batch);
    assert(list[7] == Capability::NativeQuery);
    assert(list[8] == Capability::VectorSearch);
}

} // verus!
