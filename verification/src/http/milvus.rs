//! Milvus.
use crate::budget::kept_count;
use crate::convert::{
    db_value_to_json, entries_json, is_json_list_result, json_records, json_to_records, record_json,
    record_to_json, record_to_members,
};
use crate::encoding::write_json;
use crate::http::auth::{client_plan, client_result, AuthStyle, ClientPlan};
use crate::http::common::{
    add_members, affected_error, asks_elsewhere, byte_limit, cursor_result, effective_bytes,
    effective_rows, ensure_language, find_list, find_nested, find_text_option, finish_prefix,
    finish_read, finish_write, finished_prefix, finished_read, finished_write, fitting_prefix,
    found_entities, generic_records, is_elsewhere, is_entities_result, is_one_of, is_records_result,
    language_error, lemma_cursor_round_trip, lemma_prefix_is_kept, list_in, nested,
    parameters_error, parse_cursor_offset, prefix_result, profile_error, read_entities,
    records_from_generic_json, rows_result, target_error, text_option, validate_affected,
    validate_native_parameters, validate_profile, validate_target, with_members, CommentSource,
    EntitySource,
};
use crate::http::milvus_query::{
    answer_error, check_milvus_response, confirmed_count, confirmed_milvus_write_count,
    data_records, expression, field_error, filter_keys, is_field, is_key, key_document, key_text,
    milvus_filter, milvus_primary_keys, milvus_records, validate_milvus_field, MilvusPrimaryKeyType,
};
use crate::http::native::{
    envelope_document, envelope_result, native_request, native_result, parse_native_envelope,
    EnvelopeModel, NativeHttpEnvelope,
};
use crate::http::transport::{
    add_parameter, api_request, group_pairs, is_request_result, make_request, with_parameter,
    BodyModel, HttpBody, HttpMethod, HttpRequest, MethodModel, RequestModel,
};
use crate::json::{
    as_bool, as_text, as_unsigned, bool_of, copy_members, member, number, only, optional_json, text,
    text_documents, text_of, texts_to_json, unsigned_of, vector_documents, with_member,
    write_vector, JsonObject,
};
use crate::model::{
    appended, covers, error_of, failing, failure, first_error, framed, invalid, invalid_request,
    is_description_result, is_info_result, is_result_of, is_texts_result, protocol,
    protocol_failure, unsupported, unsupported_request, AuthKind, Capability, CatalogEntity,
    CatalogQuery, ConnectionInfo, ConnectionProfile, ConnectorContext, ConnectorError,
    ConnectorManifest, ConnectorStatus, DataOperation, DeleteRequest, DescriptionModel,
    EntityDescription, EntityModel, ErrorCategory, ErrorModel, InfoModel, InsertRequest,
    NativeRequest, OperationResult, Product, ReadRequest, ResultModel, SearchRequest,
    SecretMaterial, VectorPoint, VectorSearchRequest, VectorUpsertRequest,
};
use crate::text::{
    borrowed, clone_optional, decimal, decimal_text, join, joined, names_of, optional_text,
    owned_optional, same, texts,
};
use crate::value::{
    documents, doubles, records, values, DbRecord, DbValue, Json, JsonModel, RecordModel,
    ValueModel,
};
use vstd::prelude::*;
use vstd::utf8::encode_utf8;

verus! {

broadcast use {
    crate::text::group_texts,
    crate::value::group_models,
    crate::model::group_entities,
    group_pairs,
};

/// How the answer to a request is read.
#[derive(Debug, Clone, Copy, PartialEq, Eq, Structural)]
pub enum MilvusReading {
    /// A page of at most `limit` records from `offset` on.
    Page { limit: usize, offset: usize },
    Records,
    Insert { expected: u64 },
    Upsert { expected: u64 },
    Delete { requested: u64 },
    Native,
}

/// A request, and how its answer is read.
#[derive(Debug)]
pub struct MilvusCall {
    pub request: HttpRequest,
    pub reading: MilvusReading,
}

/// Whether a request is what is expected of it.
pub open spec fn is_call_result(
    result: Result<MilvusCall, ConnectorError>,
    expected: Result<(RequestModel, MilvusReading), ErrorModel>,
) -> bool {
    match (result, expected) {
        (Ok(call), Ok((wanted, reading))) => call.request@ == wanted && call.reading == reading,
        (Err(error), Err(wanted)) => error@ == wanted,
        _ => false,
    }
}

/// The start of every body: the database, where the connection names one, and the collection.
pub open spec fn body_start(profile: ConnectionProfile, collection: Seq<char>) -> Seq<
    (Seq<char>, JsonModel),
> {
    let start = match optional_text(profile.database) {
        Some(database) => Seq::empty().push(("dbName"@, JsonModel::Text(database))),
        None => Seq::empty(),
    };
    start.push(("collectionName"@, JsonModel::Text(collection)))
}

/// The start of every body.
fn start_body(profile: &ConnectionProfile, collection: &str) -> (result: JsonObject)
    ensures
        result@ == body_start(*profile, collection@),
{
    let mut body = JsonObject::new();
    match &profile.database {
        Some(database) => {
            body.put("dbName", text(database.as_str()));
        },
        None => {},
    }
    body.put("collectionName", text(collection));
    body
}

/// A request to one of the actions on entities or collections.
pub open spec fn action_request(
    profile: ConnectionProfile,
    subject: Seq<char>,
    action: Seq<char>,
    body: Seq<(Seq<char>, JsonModel)>,
) -> Result<RequestModel, ErrorModel> {
    api_request(
        profile,
        MethodModel::Post,
        names_of(["v2", "vectordb"]@).push(subject).push(action),
        Seq::empty(),
        BodyModel::Json(JsonModel::Object(body)),
    )
}

/// Makes a request to one of the actions on entities or collections.
fn make_action(profile: &ConnectionProfile, subject: &str, action: &str, body: JsonObject) -> (result:
    Result<HttpRequest, ConnectorError>)
    ensures
        is_request_result(result, action_request(*profile, subject@, action@, body@)),
{
    assert(names_of(["v2", "vectordb", subject, action]@) =~= names_of(["v2", "vectordb"]@).push(
        subject@,
    ).push(action@));
    make_request(
        profile,
        HttpMethod::Post,
        &["v2", "vectordb", subject, action],
        Vec::new(),
        HttpBody::Json(body.finish()),
    )
}

/// A request together with how its answer is read.
pub open spec fn call_of(request: Result<RequestModel, ErrorModel>, reading: MilvusReading) -> Result<
    (RequestModel, MilvusReading),
    ErrorModel,
> {
    match request {
        Err(error) => Err(error),
        Ok(request) => Ok((request, reading)),
    }
}

/// A request together with how its answer is read.
fn make_call(request: Result<HttpRequest, ConnectorError>, reading: MilvusReading) -> (result: Result<
    MilvusCall,
    ConnectorError,
>)
    ensures
        match (request, result) {
            (Ok(request), Ok(call)) => call.request@ == request@ && call.reading == reading,
            (Err(error), Err(given)) => error@ == given@,
            _ => false,
        },
{
    match request {
        Err(error) => Err(error),
        Ok(request) => Ok(MilvusCall { request, reading }),
    }
}

/// The list that asks for every field.
pub open spec fn every_field() -> JsonModel {
    JsonModel::Array(Seq::empty().push(JsonModel::Text("*"@)))
}

/// The first text that names no field.
pub open spec fn fields_error(fields: Seq<Seq<char>>) -> Option<ErrorModel> {
    if exists|i: int| 0 <= i < fields.len() && !is_field(#[trigger] fields[i]) {
        Some(invalid_request("invalid Milvus field name"@))
    } else {
        None
    }
}

/// Refuses texts that name no fields.
fn validate_fields(fields: &Vec<String>) -> (result: Result<(), ConnectorError>)
    ensures
        error_of(result) == fields_error(texts(fields@)),
{
    let ghost all = texts(fields@);
    let mut i: usize = 0;
    while i < fields.len()
        invariant
            i <= fields@.len(),
            all == texts(fields@),
            forall|j: int| 0 <= j < i ==> is_field(#[trigger] all[j]),
        decreases fields@.len() - i,
    {
        assert(all[i as int] == fields@[i as int]@);
        match validate_milvus_field(fields[i].as_str()) {
            Err(error) => {
                assert(!is_field(all[i as int]));
                return Err(error);
            },
            Ok(()) => {},
        }
        i = i + 1;
    }
    Ok(())
}

/// The request of a read: one record more than is shown, from the offset of the cursor on.
pub open spec fn read_call(
    context: ConnectorContext,
    profile: ConnectionProfile,
    request: ReadRequest,
) -> Result<(RequestModel, MilvusReading), ErrorModel> {
    match target_error(request.target@) {
        Some(error) => Err(error),
        None => if request.options.sort@.len() > 0 {
            Err(
                unsupported_request("Milvus REST query does not provide generic sort ordering"@),
            )
        } else {
            match rows_result(context, profile, request.options.limit) {
                Err(error) => Err(error),
                Ok(limit) => match cursor_result(optional_text(request.options.cursor)) {
                    Err(error) => Err(error),
                    Ok(offset) => match fields_error(texts(request.fields@)) {
                        Some(error) => Err(error),
                        None => {
                            let body = body_start(profile, request.target@).push(
                                ("limit"@, JsonModel::Number(decimal((limit + 1) as nat))),
                            ).push(("offset"@, JsonModel::Number(decimal(offset as nat)))).push(
                                (
                                    "outputFields"@,
                                    if request.fields@.len() == 0 {
                                        every_field()
                                    } else {
                                        JsonModel::Array(text_documents(texts(request.fields@)))
                                    },
                                ),
                            );
                            let reading = MilvusReading::Page {
                                limit: limit as usize,
                                offset: offset as usize,
                            };
                            match request.filter {
                                None => call_of(
                                    action_request(profile, "entities"@, "query"@, body),
                                    reading,
                                ),
                                Some(filter) => match expression(filter) {
                                    Err(error) => Err(error),
                                    Ok(text) => call_of(
                                        action_request(
                                            profile,
                                            "entities"@,
                                            "query"@,
                                            body.push(("filter"@, JsonModel::Text(text))),
                                        ),
                                        reading,
                                    ),
                                },
                            }
                        },
                    },
                },
            }
        },
    }
}

/// Makes the request of a read.
pub fn begin_read(context: &ConnectorContext, profile: &ConnectionProfile, request: &ReadRequest) -> (result:
    Result<MilvusCall, ConnectorError>)
    ensures
        is_call_result(result, read_call(*context, *profile, *request)),
{
    match validate_target(request.target.as_str()) {
        Err(error) => {
            return Err(error);
        },
        Ok(()) => {},
    }
    if request.options.sort.len() > 0 {
        return Err(unsupported("Milvus REST query does not provide generic sort ordering"));
    }
    let limit: usize = match effective_rows(context, profile, request.options.limit) {
        Err(error) => {
            return Err(error);
        },
        Ok(limit) => limit,
    };
    let offset: usize = match parse_cursor_offset(borrowed(&request.options.cursor)) {
        Err(error) => {
            return Err(error);
        },
        Ok(offset) => offset,
    };
    match validate_fields(&request.fields) {
        Err(error) => {
            return Err(error);
        },
        Ok(()) => {},
    }
    let mut body = start_body(profile, request.target.as_str());
    body.put("limit", number(limit as u64 + 1));
    body.put("offset", number(offset as u64));
    if request.fields.len() == 0 {
        body.put("outputFields", only(text("*")));
    } else {
        body.put("outputFields", Json::Array(texts_to_json(&request.fields)));
    }
    match &request.filter {
        None => {},
        Some(filter) => match milvus_filter(filter) {
            Err(error) => {
                return Err(error);
            },
            Ok(expression) => {
                body.put("filter", Json::Text(expression));
            },
        },
    }
    make_call(
        make_action(profile, "entities", "query", body),
        MilvusReading::Page { limit, offset },
    )
}

/// The request of a search in the product's own form.
pub open spec fn search_call(
    context: ConnectorContext,
    profile: ConnectionProfile,
    request: SearchRequest,
) -> Result<(RequestModel, MilvusReading), ErrorModel> {
    match target_error(request.target@) {
        Some(error) => Err(error),
        None => if request.options.cursor is Some || request.options.sort@.len() > 0 {
            Err(
                unsupported_request(
                    "Milvus vector search does not expose a stable generic cursor or sort"@,
                ),
            )
        } else {
            match rows_result(context, profile, request.options.limit) {
                Err(error) => Err(error),
                Ok(limit) => match request.query@ {
                    JsonModel::Object(list) => {
                        let body = with_member(
                            with_member(list, "collectionName"@, JsonModel::Text(request.target@)),
                            "limit"@,
                            JsonModel::Number(decimal(limit as nat)),
                        );
                        let body = match optional_text(profile.database) {
                            Some(database) => with_member(
                                body,
                                "dbName"@,
                                JsonModel::Text(database),
                            ),
                            None => body,
                        };
                        call_of(
                            action_request(profile, "entities"@, "search"@, body),
                            MilvusReading::Records,
                        )
                    },
                    _ => Err(invalid_request("Milvus search query must be a JSON object"@)),
                },
            }
        },
    }
}

/// Makes the request of a search in the product's own form.
pub fn begin_search(context: &ConnectorContext, profile: &ConnectionProfile, request: &SearchRequest) -> (result:
    Result<MilvusCall, ConnectorError>)
    ensures
        is_call_result(result, search_call(*context, *profile, *request)),
{
    match validate_target(request.target.as_str()) {
        Err(error) => {
            return Err(error);
        },
        Ok(()) => {},
    }
    if request.options.cursor.is_some() || request.options.sort.len() > 0 {
        return Err(
            unsupported("Milvus vector search does not expose a stable generic cursor or sort"),
        );
    }
    let limit: usize = match effective_rows(context, profile, request.options.limit) {
        Err(error) => {
            return Err(error);
        },
        Ok(limit) => limit,
    };
    let mut body = match &request.query {
        Json::Object(list) => JsonObject { members: copy_members(list) },
        _ => {
            return Err(invalid("Milvus search query must be a JSON object"));
        },
    };
    body.set("collectionName", text(request.target.as_str()));
    body.set("limit", number(limit as u64));
    match &profile.database {
        Some(database) => {
            body.set("dbName", text(database.as_str()));
        },
        None => {},
    }
    make_call(make_action(profile, "entities", "search", body), MilvusReading::Records)
}

/// The name of a field that a connection may set.
pub open spec fn configured_field(
    profile: ConnectionProfile,
    option: Seq<char>,
    default: Seq<char>,
) -> Seq<char> {
    match text_option(profile, option) {
        Some(name) => name,
        None => default,
    }
}

/// The name of a field that a connection may set.
fn find_field<'a>(profile: &'a ConnectionProfile, option: &str, default: &'a str) -> (result: &'a str)
    ensures
        result@ == configured_field(*profile, option@, default@),
{
    match find_text_option(profile, option) {
        Some(name) => name,
        None => default,
    }
}

/// The request of a search for the nearest vectors.
pub open spec fn vector_search_call(
    context: ConnectorContext,
    profile: ConnectionProfile,
    request: VectorSearchRequest,
) -> Result<(RequestModel, MilvusReading), ErrorModel> {
    match target_error(request.target@) {
        Some(error) => Err(error),
        None => match rows_result(context, profile, request.top_k) {
            Err(error) => Err(error),
            Ok(limit) => {
                let field = configured_field(profile, "vector_field"@, "vector"@);
                match field_error(field) {
                    Some(error) => Err(error),
                    None => {
                        let body = body_start(profile, request.target@).push(
                            (
                                "data"@,
                                JsonModel::Array(
                                    Seq::empty().push(
                                        JsonModel::Array(
                                            vector_documents(doubles(request.vector@)),
                                        ),
                                    ),
                                ),
                            ),
                        ).push(("annsField"@, JsonModel::Text(field))).push(
                            ("limit"@, JsonModel::Number(decimal(limit as nat))),
                        ).push(("outputFields"@, every_field()));
                        match vector_scope(body, request) {
                            Err(error) => Err(error),
                            Ok(body) => call_of(
                                action_request(profile, "entities"@, "search"@, body),
                                MilvusReading::Records,
                            ),
                        }
                    },
                }
            },
        },
    }
}

/// The body of a vector search with its condition and its partition.
pub open spec fn vector_scope(body: Seq<(Seq<char>, JsonModel)>, request: VectorSearchRequest) -> Result<
    Seq<(Seq<char>, JsonModel)>,
    ErrorModel,
> {
    let filtered = match request.filter {
        None => Ok(body),
        Some(filter) => match filter@ {
            JsonModel::Text(text) => Ok(body.push(("filter"@, JsonModel::Text(text)))),
            _ => Err(invalid_request("Milvus vector filter must be an expression string"@)),
        },
    };
    match filtered {
        Err(error) => Err(error),
        Ok(body) => match optional_text(request.namespace) {
            None => Ok(body),
            Some(partition) => match target_error(partition) {
                Some(error) => Err(error),
                None => Ok(
                    body.push(
                        (
                            "partitionNames"@,
                            JsonModel::Array(Seq::empty().push(JsonModel::Text(partition))),
                        ),
                    ),
                ),
            },
        },
    }
}

/// Makes the request of a search for the nearest vectors.
pub fn begin_vector_search(
    context: &ConnectorContext,
    profile: &ConnectionProfile,
    request: &VectorSearchRequest,
) -> (result: Result<MilvusCall, ConnectorError>)
    ensures
        is_call_result(result, vector_search_call(*context, *profile, *request)),
{
    match validate_target(request.target.as_str()) {
        Err(error) => {
            return Err(error);
        },
        Ok(()) => {},
    }
    let limit: usize = match effective_rows(context, profile, request.top_k) {
        Err(error) => {
            return Err(error);
        },
        Ok(limit) => limit,
    };
    let field = find_field(profile, "vector_field", "vector");
    match validate_milvus_field(field) {
        Err(error) => {
            return Err(error);
        },
        Ok(()) => {},
    }
    let mut body = start_body(profile, request.target.as_str());
    body.put("data", only(write_vector(&request.vector)));
    body.put("annsField", text(field));
    body.put("limit", number(limit as u64));
    body.put("outputFields", only(text("*")));
    match &request.filter {
        None => {},
        Some(Json::Text(expression)) => {
            body.put("filter", text(expression.as_str()));
        },
        Some(_) => {
            return Err(invalid("Milvus vector filter must be an expression string"));
        },
    }
    match &request.namespace {
        None => {},
        Some(partition) => {
            match validate_target(partition.as_str()) {
                Err(error) => {
                    return Err(error);
                },
                Ok(()) => {},
            }
            body.put("partitionNames", only(text(partition.as_str())));
        },
    }
    make_call(make_action(profile, "entities", "search", body), MilvusReading::Records)
}

/// The documents of records; the error of the first that has one.
pub open spec fn record_documents(list: Seq<RecordModel>) -> Result<Seq<JsonModel>, ErrorModel>
    decreases list.len(),
{
    if list.len() == 0 {
        Ok(Seq::empty())
    } else {
        match record_documents(list.drop_last()) {
            Err(error) => Err(error),
            Ok(before) => match record_json(list.last()) {
                Err(error) => Err(error),
                Ok(document) => Ok(before.push(document)),
            },
        }
    }
}

/// Where some first records have an error, all of them have that one.
proof fn lemma_records_fail_early(list: Seq<RecordModel>, count: int)
    requires
        0 <= count <= list.len(),
        record_documents(list.subrange(0, count)) is Err,
    ensures
        record_documents(list) == record_documents(list.subrange(0, count)),
    decreases list.len(),
{
    if count == list.len() {
        assert(list.subrange(0, count) =~= list);
    } else {
        assert(list.drop_last().subrange(0, count) =~= list.subrange(0, count));
        lemma_records_fail_early(list.drop_last(), count);
    }
}

/// The documents of records.
fn write_records(list: &Vec<DbRecord>) -> (result: Result<Vec<Json>, ConnectorError>)
    ensures
        is_json_list_result(result, record_documents(records(list@))),
{
    let ghost all = records(list@);
    let mut items: Vec<Json> = Vec::new();
    let mut i: usize = 0;
    assert(all.subrange(0, 0) =~= Seq::<RecordModel>::empty());
    while i < list.len()
        invariant
            i <= list@.len(),
            all == records(list@),
            record_documents(all.subrange(0, i as int)) == Ok::<Seq<JsonModel>, ErrorModel>(
                documents(items@),
            ),
        decreases list@.len() - i,
    {
        assert(all.subrange(0, i + 1).drop_last() =~= all.subrange(0, i as int));
        match record_to_json(&list[i]) {
            Err(error) => {
                proof {
                    lemma_records_fail_early(all, i + 1);
                }
                return Err(error);
            },
            Ok(document) => {
                items.push(document);
            },
        }
        i = i + 1;
    }
    assert(all.subrange(0, i as int) =~= all);
    Ok(items)
}

/// The request of an insert.
pub open spec fn insert_call(profile: ConnectionProfile, request: InsertRequest) -> Result<
    (RequestModel, MilvusReading),
    ErrorModel,
> {
    match target_error(request.target@) {
        Some(error) => Err(error),
        None => match affected_error(
            profile,
            profile.policy.max_affected,
            request.records@.len(),
        ) {
            Some(error) => Err(error),
            None => match record_documents(records(request.records@)) {
                Err(error) => Err(error),
                Ok(items) => call_of(
                    action_request(
                        profile,
                        "entities"@,
                        "insert"@,
                        body_start(profile, request.target@).push(
                            ("data"@, JsonModel::Array(items)),
                        ),
                    ),
                    MilvusReading::Insert { expected: request.records@.len() as u64 },
                ),
            },
        },
    }
}

/// Makes the request of an insert.
pub fn begin_insert(profile: &ConnectionProfile, request: &InsertRequest) -> (result: Result<
    MilvusCall,
    ConnectorError,
>)
    ensures
        is_call_result(result, insert_call(*profile, *request)),
{
    match validate_target(request.target.as_str()) {
        Err(error) => {
            return Err(error);
        },
        Ok(()) => {},
    }
    match validate_affected(profile, profile.policy.max_affected, request.records.len()) {
        Err(error) => {
            return Err(error);
        },
        Ok(()) => {},
    }
    let items = match write_records(&request.records) {
        Err(error) => {
            return Err(error);
        },
        Ok(items) => items,
    };
    let mut body = start_body(profile, request.target.as_str());
    body.put("data", Json::Array(items));
    make_call(
        make_action(profile, "entities", "insert", body),
        MilvusReading::Insert { expected: request.records.len() as u64 },
    )
}

/// The texts of primary keys within an expression; the error of the first that has one.
pub open spec fn key_texts(list: Seq<ValueModel>) -> Result<Seq<Seq<char>>, ErrorModel>
    decreases list.len(),
{
    if list.len() == 0 {
        Ok(Seq::empty())
    } else {
        match key_texts(list.drop_last()) {
            Err(error) => Err(error),
            Ok(before) => match key_text(list.last()) {
                Err(error) => Err(error),
                Ok(text) => Ok(before.push(text)),
            },
        }
    }
}

/// Where some first keys have an error, all of them have that one.
proof fn lemma_key_texts_fail_early(list: Seq<ValueModel>, count: int)
    requires
        0 <= count <= list.len(),
        key_texts(list.subrange(0, count)) is Err,
    ensures
        key_texts(list) == key_texts(list.subrange(0, count)),
    decreases list.len(),
{
    if count == list.len() {
        assert(list.subrange(0, count) =~= list);
    } else {
        assert(list.drop_last().subrange(0, count) =~= list.subrange(0, count));
        lemma_key_texts_fail_early(list.drop_last(), count);
    }
}

/// The texts of primary keys within an expression.
fn write_keys(list: &Vec<DbValue>) -> (result: Result<Vec<String>, ConnectorError>)
    requires
        forall|i: int| 0 <= i < list@.len() ==> is_key(#[trigger] values(list@)[i]),
    ensures
        is_texts_result(result, key_texts(values(list@))),
{
    let ghost all = values(list@);
    let mut parts: Vec<String> = Vec::new();
    let mut i: usize = 0;
    assert(all.subrange(0, 0) =~= Seq::<ValueModel>::empty());
    while i < list.len()
        invariant
            i <= list@.len(),
            all == values(list@),
            forall|j: int| 0 <= j < list@.len() ==> is_key(#[trigger] all[j]),
            key_texts(all.subrange(0, i as int)) == Ok::<Seq<Seq<char>>, ErrorModel>(
                texts(parts@),
            ),
        decreases list@.len() - i,
    {
        assert(all.subrange(0, i + 1).drop_last() =~= all.subrange(0, i as int));
        assert(is_key(all[i as int]));
        let document = match db_value_to_json(&list[i]) {
            Err(error) => {
                return Err(error);
            },
            Ok(document) => document,
        };
        match write_json(&document) {
            None => {
                proof {
                    lemma_key_texts_fail_early(all, i + 1);
                }
                return Err(invalid("Milvus primary key could not be encoded"));
            },
            Some(text) => {
                parts.push(text);
            },
        }
        i = i + 1;
    }
    assert(all.subrange(0, i as int) =~= all);
    Ok(parts)
}

/// The request of a removal of records that are named by their primary keys.
pub open spec fn delete_call(profile: ConnectionProfile, request: DeleteRequest) -> Result<
    (RequestModel, MilvusReading),
    ErrorModel,
> {
    let primary_key = configured_field(profile, "primary_key_field"@, "id"@);
    match target_error(request.target@) {
        Some(error) => Err(error),
        None => match field_error(primary_key) {
            Some(error) => Err(error),
            None => match filter_keys(
                request.filter,
                names_of(["id", "_id"]@).push(primary_key),
            ) {
                Err(error) => Err(error),
                Ok(keys) => match affected_error(profile, request.max_affected, keys.len()) {
                    Some(error) => Err(error),
                    None => match key_texts(keys) {
                        Err(error) => Err(error),
                        Ok(parts) => call_of(
                            action_request(
                                profile,
                                "entities"@,
                                "delete"@,
                                body_start(profile, request.target@).push(
                                    (
                                        "filter"@,
                                        JsonModel::Text(
                                            primary_key + " in ["@ + joined(parts, ","@) + "]"@,
                                        ),
                                    ),
                                ),
                            ),
                            MilvusReading::Delete { requested: keys.len() as u64 },
                        ),
                    },
                },
            },
        },
    }
}

/// Makes the request of a removal.
pub fn begin_delete(profile: &ConnectionProfile, request: &DeleteRequest) -> (result: Result<
    MilvusCall,
    ConnectorError,
>)
    ensures
        is_call_result(result, delete_call(*profile, *request)),
{
    match validate_target(request.target.as_str()) {
        Err(error) => {
            return Err(error);
        },
        Ok(()) => {},
    }
    let primary_key = find_field(profile, "primary_key_field", "id");
    match validate_milvus_field(primary_key) {
        Err(error) => {
            return Err(error);
        },
        Ok(()) => {},
    }
    assert(names_of(["id", "_id", primary_key]@) =~= names_of(["id", "_id"]@).push(primary_key@));
    let keys = match milvus_primary_keys(&request.filter, &["id", "_id", primary_key]) {
        Err(error) => {
            return Err(error);
        },
        Ok(keys) => keys,
    };
    assert(values(keys@).len() == keys@.len());
    match validate_affected(profile, request.max_affected, keys.len()) {
        Err(error) => {
            return Err(error);
        },
        Ok(()) => {},
    }
    let parts = match write_keys(&keys) {
        Err(error) => {
            return Err(error);
        },
        Ok(parts) => parts,
    };
    let inner = join(&parts, ",");
    let start = appended(primary_key, " in [");
    let mut body = start_body(profile, request.target.as_str());
    body.put("filter", Json::Text(framed(start.as_str(), inner.as_str(), "]")));
    make_call(
        make_action(profile, "entities", "delete", body),
        MilvusReading::Delete { requested: keys.len() as u64 },
    )
}

/// How many records an answer says were removed.
pub open spec fn deleted_count(answer: JsonModel, requested: u64) -> Result<u64, ErrorModel> {
    match unsigned_of(nested(answer, "data"@, "deleteCount"@)) {
        None => Err(protocol_failure("Milvus delete response omitted deleteCount"@)),
        Some(affected) => if affected == 0 {
            Err(
                failure(
                    ErrorCategory::NotFound,
                    "Milvus delete target entities were not found"@,
                ),
            )
        } else if affected > requested {
            Err(
                failure(
                    ErrorCategory::UnknownOutcome,
                    "Milvus delete reported more affected entities than requested"@,
                ),
            )
        } else {
            Ok(affected)
        },
    }
}

/// Reads how many records an answer says were removed.
fn read_deleted(answer: &Json, requested: u64) -> (result: Result<u64, ConnectorError>)
    ensures
        match (result, deleted_count(answer@, requested)) {
            (Ok(count), Ok(wanted)) => count == wanted,
            (Err(error), Err(wanted)) => error@ == wanted,
            _ => false,
        },
{
    let affected: u64 = match as_unsigned(find_nested(answer, "data", "deleteCount")) {
        None => {
            return Err(protocol("Milvus delete response omitted deleteCount"));
        },
        Some(affected) => affected,
    };
    if affected == 0 {
        return Err(
            ConnectorError::new(
                ErrorCategory::NotFound,
                "Milvus delete target entities were not found",
            ),
        );
    }
    if affected > requested {
        return Err(
            ConnectorError::new(
                ErrorCategory::UnknownOutcome,
                "Milvus delete reported more affected entities than requested",
            ),
        );
    }
    Ok(affected)
}

/// The first of two members that a document has.
pub open spec fn either_member(document: JsonModel, first: Seq<char>, second: Seq<char>) -> Option<
    JsonModel,
> {
    match member(document, first) {
        Some(value) => Some(value),
        None => member(document, second),
    }
}

/// The first of two members that a document has.
fn find_either<'a>(document: &'a Json, first: &str, second: &str) -> (result: Option<&'a Json>)
    ensures
        optional_json(result) == either_member(document@, first@, second@),
{
    match document.get(first) {
        Some(value) => Some(value),
        None => document.get(second),
    }
}

/// Whether a field of a schema is the primary key of a name.
pub open spec fn is_primary(field: JsonModel, name: Seq<char>) -> bool {
    &&& text_of(either_member(field, "name"@, "fieldName"@)) == Some(name)
    &&& bool_of(either_member(field, "primaryKey"@, "isPrimary"@)) == Some(true)
}

/// The place of the primary key of a name among the fields of a schema.
pub open spec fn primary_place(fields: Seq<JsonModel>, name: Seq<char>) -> int
    decreases fields.len(),
{
    if fields.len() == 0 || is_primary(fields[0], name) {
        0
    } else {
        1 + primary_place(fields.subrange(1, fields.len() as int), name)
    }
}

/// The type of a primary key.
pub open spec fn key_type(field: JsonModel) -> Result<MilvusPrimaryKeyType, ErrorModel> {
    match text_of(either_member(field, "type"@, "dataType"@)) {
        None => Err(protocol_failure("Milvus primary key field omitted its type"@)),
        Some(name) => if name == "Int64"@ {
            Ok(MilvusPrimaryKeyType::Int64)
        } else if name == "VarChar"@ || name == "String"@ {
            Ok(MilvusPrimaryKeyType::String)
        } else {
            Err(
                unsupported_request("Milvus vector upsert supports Int64 or VarChar primary keys"@),
            )
        },
    }
}

/// The type of the primary key that the description of a collection gives.
pub open spec fn described_key_type(answer: JsonModel, name: Seq<char>) -> Result<
    MilvusPrimaryKeyType,
    ErrorModel,
> {
    match member(answer, "data"@) {
        None => Err(protocol_failure("Milvus response omitted collection description"@)),
        Some(data) => if bool_of(member(data, "autoId"@)) == Some(true) {
            Err(
                unsupported_request(
                    "Milvus vector upsert requires a collection with autoId disabled"@,
                ),
            )
        } else {
            match list_in(data, "fields"@) {
                None => Err(protocol_failure("Milvus schema omitted fields"@)),
                Some(fields) => {
                    let place = primary_place(fields, name);
                    if place >= fields.len() {
                        Err(
                            invalid_request(
                                "configured Milvus primary key field does not match the collection schema"@,
                            ),
                        )
                    } else {
                        key_type(fields[place])
                    }
                },
            }
        },
    }
}

/// Whether a field of a schema is the primary key of a name.
fn is_primary_field(field: &Json, name: &str) -> (result: bool)
    ensures
        result == is_primary(field@, name@),
{
    let named = match as_text(find_either(field, "name", "fieldName")) {
        Some(found) => same(found, name),
        None => false,
    };
    named && matches!(as_bool(find_either(field, "primaryKey", "isPrimary")), Some(true))
}

/// The place of the primary key of a name among the fields of a schema.
fn find_primary(fields: &Vec<Json>, name: &str) -> (result: usize)
    ensures
        result == primary_place(documents(fields@), name@),
        result <= fields@.len(),
{
    let ghost all = documents(fields@);
    let mut i: usize = 0;
    assert(all.subrange(0, all.len() as int) =~= all);
    while i < fields.len()
        invariant
            i <= fields@.len(),
            all == documents(fields@),
            primary_place(all, name@) == i + primary_place(
                all.subrange(i as int, all.len() as int),
                name@,
            ),
        decreases fields@.len() - i,
    {
        let ghost rest = all.subrange(i as int, all.len() as int);
        assert(rest[0] == fields@[i as int]@);
        assert(rest.subrange(1, rest.len() as int) =~= all.subrange(i + 1, all.len() as int));
        if is_primary_field(&fields[i], name) {
            return i;
        }
        i = i + 1;
    }
    i
}

/// Reads the type of the primary key from the description of a collection.
pub fn read_key_type(answer: &Json, name: &str) -> (result: Result<
    MilvusPrimaryKeyType,
    ConnectorError,
>)
    ensures
        match (result, described_key_type(answer@, name@)) {
            (Ok(kind), Ok(wanted)) => kind == wanted,
            (Err(error), Err(wanted)) => error@ == wanted,
            _ => false,
        },
{
    let data = match answer.get("data") {
        None => {
            return Err(protocol("Milvus response omitted collection description"));
        },
        Some(data) => data,
    };
    if matches!(as_bool(data.get("autoId")), Some(true)) {
        return Err(
            unsupported("Milvus vector upsert requires a collection with autoId disabled"),
        );
    }
    let fields = match find_list(data, "fields") {
        None => {
            return Err(protocol("Milvus schema omitted fields"));
        },
        Some(fields) => fields,
    };
    let place: usize = find_primary(fields, name);
    if place >= fields.len() {
        return Err(
            invalid(
                "configured Milvus primary key field does not match the collection schema",
            ),
        );
    }
    assert(documents(fields@)[place as int] == fields@[place as int]@);
    match as_text(find_either(&fields[place], "type", "dataType")) {
        None => Err(protocol("Milvus primary key field omitted its type")),
        Some(kind) => {
            if same(kind, "Int64") {
                Ok(MilvusPrimaryKeyType::Int64)
            } else if same(kind, "VarChar") || same(kind, "String") {
                Ok(MilvusPrimaryKeyType::String)
            } else {
                Err(unsupported("Milvus vector upsert supports Int64 or VarChar primary keys"))
            }
        },
    }
}

/// The request for the description of a collection.
pub open spec fn describe_call(profile: ConnectionProfile, collection: Seq<char>) -> Result<
    RequestModel,
    ErrorModel,
> {
    action_request(profile, "collections"@, "describe"@, body_start(profile, collection))
}

/// What is checked of a write of vectors before the collection is described, and the request for
/// its description.
pub open spec fn upsert_start(profile: ConnectionProfile, request: VectorUpsertRequest) -> Result<
    RequestModel,
    ErrorModel,
> {
    match target_error(request.target@) {
        Some(error) => Err(error),
        None => match affected_error(profile, profile.policy.max_affected, request.points@.len()) {
            Some(error) => Err(error),
            None => match field_error(configured_field(profile, "vector_field"@, "vector"@)) {
                Some(error) => Err(error),
                None => match field_error(
                    configured_field(profile, "primary_key_field"@, "id"@),
                ) {
                    Some(error) => Err(error),
                    None => describe_call(profile, request.target@),
                },
            },
        },
    }
}

/// Makes the request for the description of a collection that vectors are written to.
pub fn begin_upsert(profile: &ConnectionProfile, request: &VectorUpsertRequest) -> (result: Result<
    HttpRequest,
    ConnectorError,
>)
    ensures
        is_request_result(result, upsert_start(*profile, *request)),
{
    match validate_target(request.target.as_str()) {
        Err(error) => {
            return Err(error);
        },
        Ok(()) => {},
    }
    match validate_affected(profile, profile.policy.max_affected, request.points.len()) {
        Err(error) => {
            return Err(error);
        },
        Ok(()) => {},
    }
    match validate_milvus_field(find_field(profile, "vector_field", "vector")) {
        Err(error) => {
            return Err(error);
        },
        Ok(()) => {},
    }
    match validate_milvus_field(find_field(profile, "primary_key_field", "id")) {
        Err(error) => {
            return Err(error);
        },
        Ok(()) => {},
    }
    let body = start_body(profile, request.target.as_str());
    make_action(profile, "collections", "describe", body)
}

/// The document of a vector with what belongs to it.
pub open spec fn point_document(
    point: VectorPoint,
    primary_key: Seq<char>,
    kind: MilvusPrimaryKeyType,
    vector_field: Seq<char>,
) -> Result<JsonModel, ErrorModel> {
    match entries_json(point.metadata@) {
        Err(error) => Err(error),
        Ok(list) => match key_document(kind, point.id@) {
            Err(error) => Err(error),
            Ok(key) => Ok(
                JsonModel::Object(
                    with_member(
                        with_member(list, primary_key, key),
                        vector_field,
                        JsonModel::Array(vector_documents(doubles(point.vector@))),
                    ),
                ),
            ),
        },
    }
}

/// The documents of vectors; the error of the first that has one.
pub open spec fn point_documents(
    points: Seq<VectorPoint>,
    primary_key: Seq<char>,
    kind: MilvusPrimaryKeyType,
    vector_field: Seq<char>,
) -> Result<Seq<JsonModel>, ErrorModel>
    decreases points.len(),
{
    if points.len() == 0 {
        Ok(Seq::empty())
    } else {
        match point_documents(points.drop_last(), primary_key, kind, vector_field) {
            Err(error) => Err(error),
            Ok(before) => match point_document(
                points.last(),
                primary_key,
                kind,
                vector_field,
            ) {
                Err(error) => Err(error),
                Ok(document) => Ok(before.push(document)),
            },
        }
    }
}

/// Where some first vectors have an error, all of them have that one.
proof fn lemma_points_fail_early(
    points: Seq<VectorPoint>,
    primary_key: Seq<char>,
    kind: MilvusPrimaryKeyType,
    vector_field: Seq<char>,
    count: int,
)
    requires
        0 <= count <= points.len(),
        point_documents(points.subrange(0, count), primary_key, kind, vector_field) is Err,
    ensures
        point_documents(points, primary_key, kind, vector_field) == point_documents(
            points.subrange(0, count),
            primary_key,
            kind,
            vector_field,
        ),
    decreases points.len(),
{
    if count == points.len() {
        assert(points.subrange(0, count) =~= points);
    } else {
        assert(points.drop_last().subrange(0, count) =~= points.subrange(0, count));
        lemma_points_fail_early(points.drop_last(), primary_key, kind, vector_field, count);
    }
}

/// Writes the documents of vectors.
fn write_points(
    points: &Vec<VectorPoint>,
    primary_key: &str,
    kind: MilvusPrimaryKeyType,
    vector_field: &str,
) -> (result: Result<Vec<Json>, ConnectorError>)
    ensures
        is_json_list_result(
            result,
            point_documents(points@, primary_key@, kind, vector_field@),
        ),
{
    let ghost all = points@;
    let mut items: Vec<Json> = Vec::new();
    let mut i: usize = 0;
    assert(all.subrange(0, 0) =~= Seq::<VectorPoint>::empty());
    while i < points.len()
        invariant
            i <= points@.len(),
            all == points@,
            point_documents(all.subrange(0, i as int), primary_key@, kind, vector_field@) == Ok::<
                Seq<JsonModel>,
                ErrorModel,
            >(documents(items@)),
        decreases points@.len() - i,
    {
        let point = &points[i];
        assert(all.subrange(0, i + 1).drop_last() =~= all.subrange(0, i as int));
        let list = match record_to_members(&point.metadata) {
            Err(error) => {
                proof {
                    lemma_points_fail_early(all, primary_key@, kind, vector_field@, i + 1);
                }
                return Err(error);
            },
            Ok(list) => list,
        };
        let key = match kind.encode(point.id.as_str()) {
            Err(error) => {
                proof {
                    lemma_points_fail_early(all, primary_key@, kind, vector_field@, i + 1);
                }
                return Err(error);
            },
            Ok(key) => key,
        };
        let mut object = JsonObject { members: list };
        object.set(primary_key, key);
        object.set(vector_field, write_vector(&point.vector));
        items.push(object.finish());
        i = i + 1;
    }
    assert(all.subrange(0, i as int) =~= all);
    Ok(items)
}

/// The request of a write of vectors once the collection is described.
pub open spec fn upsert_call(
    profile: ConnectionProfile,
    request: VectorUpsertRequest,
    description: JsonModel,
) -> Result<(RequestModel, MilvusReading), ErrorModel> {
    let primary_key = configured_field(profile, "primary_key_field"@, "id"@);
    let vector_field = configured_field(profile, "vector_field"@, "vector"@);
    match answer_error(description) {
        Some(error) => Err(error),
        None => match described_key_type(description, primary_key) {
            Err(error) => Err(error),
            Ok(kind) => match point_documents(request.points@, primary_key, kind, vector_field) {
                Err(error) => Err(error),
                Ok(items) => {
                    let body = body_start(profile, request.target@).push(
                        ("data"@, JsonModel::Array(items)),
                    );
                    let scoped = match optional_text(request.namespace) {
                        None => Ok(body),
                        Some(partition) => match target_error(partition) {
                            Some(error) => Err(error),
                            None => Ok(body.push(("partitionName"@, JsonModel::Text(partition)))),
                        },
                    };
                    match scoped {
                        Err(error) => Err(error),
                        Ok(body) => call_of(
                            action_request(profile, "entities"@, "upsert"@, body),
                            MilvusReading::Upsert { expected: request.points@.len() as u64 },
                        ),
                    }
                },
            },
        },
    }
}

/// Makes the request of a write of vectors once the collection is described.
pub fn continue_upsert(
    profile: &ConnectionProfile,
    request: &VectorUpsertRequest,
    description: &Json,
) -> (result: Result<MilvusCall, ConnectorError>)
    ensures
        is_call_result(result, upsert_call(*profile, *request, description@)),
{
    match check_milvus_response(description) {
        Err(error) => {
            return Err(error);
        },
        Ok(()) => {},
    }
    let primary_key = find_field(profile, "primary_key_field", "id");
    let vector_field = find_field(profile, "vector_field", "vector");
    let kind = match read_key_type(description, primary_key) {
        Err(error) => {
            return Err(error);
        },
        Ok(kind) => kind,
    };
    let items = match write_points(&request.points, primary_key, kind, vector_field) {
        Err(error) => {
            return Err(error);
        },
        Ok(items) => items,
    };
    let mut body = start_body(profile, request.target.as_str());
    body.put("data", Json::Array(items));
    match &request.namespace {
        None => {},
        Some(partition) => {
            match validate_target(partition.as_str()) {
                Err(error) => {
                    return Err(error);
                },
                Ok(()) => {},
            }
            body.put("partitionName", text(partition.as_str()));
        },
    }
    make_call(
        make_action(profile, "entities", "upsert", body),
        MilvusReading::Upsert { expected: request.points.len() as u64 },
    )
}

/// The paths that native queries may use.
pub open spec fn reading_paths() -> Seq<Seq<char>> {
    names_of(
        [
            "/v2/vectordb/entities/query",
            "/v2/vectordb/entities/search",
            "/v2/vectordb/entities/get",
            "/v2/vectordb/collections/list",
            "/v2/vectordb/collections/describe",
        ]@,
    )
}

/// The native request of a parsed envelope.
pub open spec fn native_read_call(
    profile: ConnectionProfile,
    envelope: Result<EnvelopeModel, ErrorModel>,
) -> Result<(RequestModel, MilvusReading), ErrorModel> {
    match envelope {
        Err(error) => Err(error),
        Ok(envelope) => if !(envelope.method is Post) || !reading_paths().contains(envelope.path) {
            Err(
                failure(
                    ErrorCategory::PermissionDenied,
                    "native Milvus query must POST to an explicitly supported read endpoint"@,
                ),
            )
        } else {
            call_of(native_result(profile, envelope), MilvusReading::Native)
        },
    }
}

/// The request of a native query.
pub open spec fn native_call(profile: ConnectionProfile, request: NativeRequest) -> Result<
    (RequestModel, MilvusReading),
    ErrorModel,
> {
    match language_error(request.language@, names_of(["milvus_http", "json"]@)) {
        Some(error) => Err(error),
        None => match parameters_error(request) {
            Some(error) => Err(error),
            None => native_read_call(
                profile,
                envelope_result(
                    envelope_document(encode_utf8(request.statement@)),
                    true,
                    reading_paths(),
                ),
            ),
        },
    }
}

/// Makes the native request of a parsed envelope.
pub fn accept_native(profile: &ConnectionProfile, envelope: NativeHttpEnvelope) -> (result: Result<
    MilvusCall,
    ConnectorError,
>)
    ensures
        is_call_result(result, native_read_call(*profile, Ok(envelope@))),
{
    let post = matches!(&envelope.method, HttpMethod::Post);
    if !post || !is_one_of(
        envelope.path.as_str(),
        &[
            "/v2/vectordb/entities/query",
            "/v2/vectordb/entities/search",
            "/v2/vectordb/entities/get",
            "/v2/vectordb/collections/list",
            "/v2/vectordb/collections/describe",
        ],
    ) {
        return Err(
            ConnectorError::new(
                ErrorCategory::PermissionDenied,
                "native Milvus query must POST to an explicitly supported read endpoint",
            ),
        );
    }
    make_call(native_request(profile, envelope), MilvusReading::Native)
}

/// Makes the request of a native query.
pub fn begin_native(profile: &ConnectionProfile, request: &NativeRequest) -> (result: Result<
    MilvusCall,
    ConnectorError,
>)
    ensures
        is_call_result(result, native_call(*profile, *request)),
{
    match ensure_language(request.language.as_str(), &["milvus_http", "json"]) {
        Err(error) => {
            return Err(error);
        },
        Ok(()) => {},
    }
    match validate_native_parameters(request) {
        Err(error) => {
            return Err(error);
        },
        Ok(()) => {},
    }
    match parse_native_envelope(
        request.statement.as_str(),
        true,
        &[
            "/v2/vectordb/entities/query",
            "/v2/vectordb/entities/search",
            "/v2/vectordb/entities/get",
            "/v2/vectordb/collections/list",
            "/v2/vectordb/collections/describe",
        ],
    ) {
        Err(error) => Err(error),
        Ok(envelope) => accept_native(profile, envelope),
    }
}

/// The records of an answer, before the limit of bytes is applied.
pub open spec fn answer_records(reading: MilvusReading, answer: JsonModel) -> Result<
    Seq<RecordModel>,
    ErrorModel,
> {
    match answer_error(answer) {
        Some(error) => Err(error),
        None => match reading {
            MilvusReading::Page { limit, .. } => match data_records(answer) {
                Err(error) => Err(error),
                Ok(found) => Ok(found),
            },
            MilvusReading::Records => data_records(answer),
            MilvusReading::Native => Ok(generic_records(answer)),
            _ => Ok(Seq::empty()),
        },
    }
}

/// Reads the records of an answer, before the limit of bytes is applied.
pub fn read_records(reading: MilvusReading, answer: &Json) -> (result: Result<
    Vec<DbRecord>,
    ConnectorError,
>)
    ensures
        is_records_result(result, answer_records(reading, answer@)),
{
    match check_milvus_response(answer) {
        Err(error) => {
            return Err(error);
        },
        Ok(()) => {},
    }
    match reading {
        MilvusReading::Page { .. } => milvus_records(answer),
        MilvusReading::Records => milvus_records(answer),
        MilvusReading::Native => Ok(records_from_generic_json(answer)),
        _ => Ok(Vec::new()),
    }
}

/// The result of a read whose records have the given encoded sizes: those that fit into the
/// limits, and as the cursor the offset behind them where there are more.
pub open spec fn page_outcome(
    context: ConnectorContext,
    profile: ConnectionProfile,
    found: Seq<RecordModel>,
    limit: usize,
    offset: usize,
    sizes: Seq<u64>,
    elapsed_ms: u64,
) -> Result<ResultModel, ErrorModel> {
    match prefix_result(
        sizes,
        limit as nat,
        byte_limit(context, profile),
        "the first Milvus entity exceeds the configured max_bytes limit"@,
    ) {
        Err(error) => Err(error),
        Ok(kept) => {
            let truncated = kept < found.len();
            if truncated && offset + kept > usize::MAX {
                Err(invalid_request("Milvus cursor overflow"@))
            } else {
                finished_prefix(
                    context,
                    profile,
                    found,
                    sizes,
                    kept,
                    if truncated {
                        Some(decimal((offset + kept) as nat))
                    } else {
                        None
                    },
                    truncated,
                    elapsed_ms,
                )
            }
        },
    }
}

/// The result of an operation whose answer holds records of the given encoded sizes.
pub open spec fn operation_outcome(
    context: ConnectorContext,
    profile: ConnectionProfile,
    reading: MilvusReading,
    answer: JsonModel,
    sizes: Seq<u64>,
    elapsed_ms: u64,
) -> Result<ResultModel, ErrorModel> {
    match answer_records(reading, answer) {
        Err(error) => Err(error),
        Ok(found) => match reading {
            MilvusReading::Page { limit, offset } => page_outcome(
                context,
                profile,
                found,
                limit,
                offset,
                sizes,
                elapsed_ms,
            ),
            MilvusReading::Records | MilvusReading::Native => finished_read(
                context,
                profile,
                found,
                sizes,
                elapsed_ms,
            ),
            MilvusReading::Insert { expected } => written_outcome(
                context,
                profile,
                confirmed_count(answer, "/data/insertCount"@, expected, "insert"@),
                elapsed_ms,
            ),
            MilvusReading::Upsert { expected } => written_outcome(
                context,
                profile,
                confirmed_count(answer, "/data/upsertCount"@, expected, "upsert"@),
                elapsed_ms,
            ),
            MilvusReading::Delete { requested } => written_outcome(
                context,
                profile,
                deleted_count(answer, requested),
                elapsed_ms,
            ),
        },
    }
}

/// The result of a write that affected a number of records.
pub open spec fn written_outcome(
    context: ConnectorContext,
    profile: ConnectionProfile,
    affected: Result<u64, ErrorModel>,
    elapsed_ms: u64,
) -> Result<ResultModel, ErrorModel> {
    match affected {
        Err(error) => Err(error),
        Ok(affected) => finished_write(context, profile, affected, elapsed_ms),
    }
}

/// Makes the result of a write that affected a number of records.
fn finish_written(
    context: &ConnectorContext,
    profile: &ConnectionProfile,
    affected: Result<u64, ConnectorError>,
    elapsed_ms: u64,
) -> (result: Result<OperationResult, ConnectorError>)
    ensures
        match affected {
            Ok(affected) => is_result_of(
                result,
                finished_write(*context, *profile, affected, elapsed_ms),
            ),
            Err(error) => is_result_of(result, Err(error@)),
        },
{
    match affected {
        Err(error) => Err(error),
        Ok(affected) => finish_write(context, profile, affected, elapsed_ms),
    }
}

/// Makes the result of a read of a page.
fn finish_page(
    context: &ConnectorContext,
    profile: &ConnectionProfile,
    found: Vec<DbRecord>,
    limit: usize,
    offset: usize,
    sizes: Vec<u64>,
    elapsed_ms: u64,
) -> (result: Result<OperationResult, ConnectorError>)
    requires
        sizes@.len() == found@.len(),
    ensures
        is_result_of(
            result,
            page_outcome(
                *context,
                *profile,
                records(found@),
                limit,
                offset,
                sizes@,
                elapsed_ms,
            ),
        ),
{
    let kept: usize = match fitting_prefix(
        &sizes,
        limit,
        effective_bytes(context, profile),
        "the first Milvus entity exceeds the configured max_bytes limit",
    ) {
        Err(error) => {
            return Err(error);
        },
        Ok(kept) => kept,
    };
    let truncated = kept < found.len();
    let mut next_cursor: Option<String> = None;
    if truncated {
        match offset.checked_add(kept) {
            None => {
                return Err(invalid("Milvus cursor overflow"));
            },
            Some(next) => {
                next_cursor = Some(decimal_text(next as u64));
            },
        }
    }
    finish_prefix(context, profile, found, sizes, kept, next_cursor, truncated, elapsed_ms)
}

/// Makes the result of an operation whose answer holds records of the given encoded sizes.
pub fn finish_operation(
    context: &ConnectorContext,
    profile: &ConnectionProfile,
    reading: MilvusReading,
    answer: &Json,
    sizes: Vec<u64>,
    elapsed_ms: u64,
) -> (result: Result<OperationResult, ConnectorError>)
    requires
        answer_records(reading, answer@) matches Ok(found) ==> sizes@.len() == found.len(),
    ensures
        is_result_of(
            result,
            operation_outcome(*context, *profile, reading, answer@, sizes@, elapsed_ms),
        ),
{
    let found = match read_records(reading, answer) {
        Err(error) => {
            return Err(error);
        },
        Ok(found) => found,
    };
    assert(records(found@).len() == found@.len());
    match reading {
        MilvusReading::Page { limit, offset } => finish_page(
            context,
            profile,
            found,
            limit,
            offset,
            sizes,
            elapsed_ms,
        ),
        MilvusReading::Records => finish_read(context, profile, found, &sizes, elapsed_ms),
        MilvusReading::Native => finish_read(context, profile, found, &sizes, elapsed_ms),
        MilvusReading::Insert { expected } => finish_written(
            context,
            profile,
            confirmed_milvus_write_count(answer, "/data/insertCount", expected, "insert"),
            elapsed_ms,
        ),
        MilvusReading::Upsert { expected } => finish_written(
            context,
            profile,
            confirmed_milvus_write_count(answer, "/data/upsertCount", expected, "upsert"),
            elapsed_ms,
        ),
        MilvusReading::Delete { requested } => finish_written(
            context,
            profile,
            read_deleted(answer, requested),
            elapsed_ms,
        ),
    }
}

/// How an operation is carried out.
#[derive(Debug)]
pub enum MilvusPlan {
    Call(MilvusCall),
    /// A write of vectors: the request for the description of the collection.
    Describe(HttpRequest),
}

/// Whether a plan is what is expected of it.
pub open spec fn is_plan_result(
    result: Result<MilvusPlan, ConnectorError>,
    context: ConnectorContext,
    profile: ConnectionProfile,
    operation: DataOperation,
) -> bool {
    match operation {
        DataOperation::Read(request) => is_call_plan(
            result,
            read_call(context, profile, request),
        ),
        DataOperation::Search(request) => is_call_plan(
            result,
            search_call(context, profile, request),
        ),
        DataOperation::VectorSearch(request) => is_call_plan(
            result,
            vector_search_call(context, profile, request),
        ),
        DataOperation::Insert(request) => is_call_plan(result, insert_call(profile, request)),
        DataOperation::VectorUpsert(request) => match (result, upsert_start(profile, request)) {
            (Ok(MilvusPlan::Describe(request)), Ok(wanted)) => request@ == wanted,
            (Err(error), Err(wanted)) => error@ == wanted,
            _ => false,
        },
        DataOperation::Delete(request) => is_call_plan(result, delete_call(profile, request)),
        DataOperation::NativeQuery(request) => is_call_plan(result, native_call(profile, request)),
        _ => result matches Err(error) && error@ == unsupported_request(
            "operation is not supported by Milvus REST"@,
        ),
    }
}

/// Whether a plan is a single request that is what is expected of it.
pub open spec fn is_call_plan(
    result: Result<MilvusPlan, ConnectorError>,
    expected: Result<(RequestModel, MilvusReading), ErrorModel>,
) -> bool {
    match (result, expected) {
        (Ok(MilvusPlan::Call(call)), Ok((wanted, reading))) => call.request@ == wanted
            && call.reading == reading,
        (Err(error), Err(wanted)) => error@ == wanted,
        _ => false,
    }
}

/// A plan of a single request.
fn plan_call(call: Result<MilvusCall, ConnectorError>) -> (result: Result<
    MilvusPlan,
    ConnectorError,
>)
    ensures
        match (call, result) {
            (Ok(call), Ok(MilvusPlan::Call(given))) => given.request@ == call.request@
                && given.reading == call.reading,
            (Err(error), Err(given)) => error@ == given@,
            _ => false,
        },
{
    match call {
        Err(error) => Err(error),
        Ok(call) => Ok(MilvusPlan::Call(call)),
    }
}

/// How the collections of an answer are read.
pub open spec fn collection_source(profile: ConnectionProfile, source: EntitySource) -> bool {
    &&& source.namespace@ == "collection"@
    &&& source.kind@ == "collection"@
    &&& source.name is None
    &&& match optional_text(profile.database) {
        None => source.comment is Absent,
        Some(database) => source.comment matches CommentSource::Fixed(comment) && comment@
            == "database="@ + database,
    }
}

/// The names of the collections of an answer.
pub open spec fn collection_names(answer: JsonModel) -> Result<Seq<JsonModel>, ErrorModel> {
    match answer_error(answer) {
        Some(error) => Err(error),
        None => {
            let names = match member(answer, "data"@) {
                None => None,
                Some(JsonModel::Array(names)) => Some(names),
                Some(data) => list_in(data, "collectionNames"@),
            };
            match names {
                None => Err(protocol_failure("Milvus response omitted collection names"@)),
                Some(names) => Ok(names),
            }
        },
    }
}

/// What the description of a collection says of it.
pub open spec fn collection_description(name: Seq<char>, answer: JsonModel) -> Result<
    DescriptionModel,
    ErrorModel,
> {
    match answer_error(answer) {
        Some(error) => Err(error),
        None => match member(answer, "data"@) {
            None => Err(protocol_failure("Milvus response omitted collection description"@)),
            Some(data) => Ok(
                DescriptionModel {
                    entity: EntityModel {
                        id: name,
                        namespace: Some("collection"@),
                        name,
                        kind: "collection"@,
                        comment: text_of(member(data, "description"@)),
                    },
                    fields: match list_in(data, "fields"@) {
                        Some(fields) => json_records(fields),
                        None => Seq::empty(),
                    },
                    metadata: with_members(
                        Seq::empty(),
                        data,
                        names_of(
                            [
                                "collectionName",
                                "description",
                                "enableDynamicField",
                                "partitionsNum",
                                "shardsNum",
                                "consistencyLevel",
                            ]@,
                        ),
                    ),
                    truncated: false,
                    warnings: Seq::empty(),
                },
            ),
        },
    }
}

/// What the connector for Milvus can do.
pub open spec fn milvus_capabilities() -> Seq<Capability> {
    seq![Capability::TestConnection].push(Capability::Discover).push(Capability::Describe).push(
        Capability::Read,
    ).push(Capability::Insert).push(Capability::Upsert).push(Capability::Delete).push(
        Capability::Batch,
    ).push(Capability::NativeQuery).push(Capability::VectorSearch)
}

/// The connector for Milvus.
#[derive(Debug, Clone, Copy)]
pub struct MilvusRestConnector {}

impl Default for MilvusRestConnector {
    fn default() -> (result: MilvusRestConnector) {
        MilvusRestConnector {  }
    }
}

impl MilvusRestConnector {
    /// What the connector says of itself.
    pub fn manifest(&self) -> (result: ConnectorManifest)
        ensures
            result.id@ == "milvus-rest-v2"@,
            result.display_name@ == "Milvus REST v2"@,
            result.product == Product::Milvus,
            result.api_mode@ == "milvus_rest_v2"@,
            result.driver@ == "reqwest-rest"@,
            result.driver_version@ == "0.1.0"@,
            result.status == ConnectorStatus::Experimental,
            result.capabilities@ == milvus_capabilities(),
            result.auth_kinds@ == seq![AuthKind::Anonymous].push(AuthKind::UsernamePassword).push(
                AuthKind::ApiKey,
            ).push(AuthKind::BearerToken).push(AuthKind::ClientCertificate),
            texts(result.limitations@) == seq![
                "uses Milvus REST v2; gRPC-only administration is not exposed"@,
            ].push("delete requires explicit primary-key ids"@).push(
                "vector and primary-key field names default to vector and id and may be configured"@,
            ).push(
                "generic vector upsert supports schema-declared Int64 and VarChar primary keys"@,
            ).push("idempotency keys are enforced by the local runtime, not by the REST API"@),
    {
        let mut capabilities: Vec<Capability> = Vec::new();
        capabilities.push(Capability::TestConnection);
        capabilities.push(Capability::Discover);
        capabilities.push(Capability::Describe);
        capabilities.push(Capability::Read);
        capabilities.push(Capability::Insert);
        capabilities.push(Capability::Upsert);
        capabilities.push(Capability::Delete);
        capabilities.push(Capability::Batch);
        capabilities.push(Capability::NativeQuery);
        capabilities.push(Capability::VectorSearch);
        let mut auth_kinds: Vec<AuthKind> = Vec::new();
        auth_kinds.push(AuthKind::Anonymous);
        auth_kinds.push(AuthKind::UsernamePassword);
        auth_kinds.push(AuthKind::ApiKey);
        auth_kinds.push(AuthKind::BearerToken);
        auth_kinds.push(AuthKind::ClientCertificate);
        let mut limitations: Vec<String> = Vec::new();
        limitations.push(
            "uses Milvus REST v2; gRPC-only administration is not exposed".to_owned(),
        );
        limitations.push("delete requires explicit primary-key ids".to_owned());
        limitations.push(
            "vector and primary-key field names default to vector and id and may be configured".to_owned(),
        );
        limitations.push(
            "generic vector upsert supports schema-declared Int64 and VarChar primary keys".to_owned(),
        );
        limitations.push(
            "idempotency keys are enforced by the local runtime, not by the REST API".to_owned(),
        );
        ConnectorManifest {
            id: "milvus-rest-v2".to_owned(),
            display_name: "Milvus REST v2".to_owned(),
            product: Product::Milvus,
            api_mode: "milvus_rest_v2".to_owned(),
            driver: "reqwest-rest".to_owned(),
            driver_version: "0.1.0".to_owned(),
            status: ConnectorStatus::Experimental,
            capabilities,
            auth_kinds,
            limitations,
        }
    }

    /// Refuses profiles that are not for this connector.
    pub fn validate(profile: &ConnectionProfile) -> (result: Result<(), ConnectorError>)
        ensures
            error_of(result) == profile_error(
                *profile,
                Product::Milvus,
                names_of(["milvus_rest_v2"]@),
            ),
    {
        validate_profile(profile, Product::Milvus, &["milvus_rest_v2"])
    }

    /// Refuses a profile and a credential with which no connection could be made.
    pub fn validate_connection_input(
        profile: &ConnectionProfile,
        secret: &SecretMaterial,
    ) -> (result: Result<(), ConnectorError>)
        ensures
            error_of(result) == first_error(
                profile_error(*profile, Product::Milvus, names_of(["milvus_rest_v2"]@)),
                failing(
                    client_result(
                        *profile,
                        secret.kind,
                        secret.fields@,
                        AuthStyle::MilvusBearer,
                        Seq::empty(),
                    ),
                ),
            ),
    {
        match Self::validate(profile) {
            Err(error) => {
                return Err(error);
            },
            Ok(_) => {},
        }
        match Self::client(profile, secret) {
            Err(error) => Err(error),
            Ok(_) => Ok(()),
        }
    }

    /// How the client of a connection is set up.
    pub fn client(profile: &ConnectionProfile, secret: &SecretMaterial) -> (result: Result<
        ClientPlan,
        ConnectorError,
    >)
        ensures
            match (
                result,
                client_result(
                    *profile,
                    secret.kind,
                    secret.fields@,
                    AuthStyle::MilvusBearer,
                    Seq::empty(),
                ),
            ) {
                (Ok(plan), Ok(wanted)) => plan@ == wanted,
                (Err(error), Err(wanted)) => error@ == wanted,
                _ => false,
            },
    {
        client_plan(profile, secret, AuthStyle::MilvusBearer, &Vec::new())
    }

    /// The request for the names of the collections.
    pub fn list_request(profile: &ConnectionProfile) -> (result: Result<HttpRequest, ConnectorError>)
        ensures
            is_request_result(
                result,
                api_request(
                    *profile,
                    MethodModel::Post,
                    names_of(["v2", "vectordb", "collections", "list"]@),
                    with_parameter(Seq::empty(), "dbName"@, optional_text(profile.database)),
                    BodyModel::Json(JsonModel::Object(Seq::empty())),
                ),
            ),
    {
        let mut query: Vec<(String, String)> = Vec::new();
        add_parameter(&mut query, "dbName", borrowed(&profile.database));
        make_request(
            profile,
            HttpMethod::Post,
            &["v2", "vectordb", "collections", "list"],
            query,
            HttpBody::Json(JsonObject::new().finish()),
        )
    }

    /// What is known of the server once it has listed its collections.
    pub fn connection_info(profile: &ConnectionProfile, answer: &Json) -> (result: Result<
        ConnectionInfo,
        ConnectorError,
    >)
        ensures
            is_info_result(
                result,
                match answer_error(answer@) {
                    Some(error) => Err(error),
                    None => Ok(
                        InfoModel {
                            product_name: "Milvus"@,
                            product_version: None,
                            api_mode: "milvus_rest_v2"@,
                            server_identity: optional_text(profile.endpoint.host),
                            warnings: Seq::empty().push(
                                "Milvus REST v2 does not expose a stable server-version endpoint"@,
                            ),
                        },
                    ),
                },
            ),
    {
        match check_milvus_response(answer) {
            Err(error) => {
                return Err(error);
            },
            Ok(()) => {},
        }
        let mut warnings: Vec<String> = Vec::new();
        warnings.push(
            "Milvus REST v2 does not expose a stable server-version endpoint".to_owned(),
        );
        Ok(
            ConnectionInfo {
                product_name: "Milvus".to_owned(),
                product_version: None,
                api_mode: "milvus_rest_v2".to_owned(),
                server_identity: clone_optional(&profile.endpoint.host),
                warnings,
            },
        )
    }

    /// Whether the catalog has nothing of what a query asks for.
    pub fn is_outside(query: &CatalogQuery) -> (result: bool)
        ensures
            result == asks_elsewhere(*query, "collection"@),
    {
        is_elsewhere(query, "collection")
    }

    /// The collections that a catalog query found.
    pub fn catalog_entities(profile: &ConnectionProfile, answer: &Json, query: &CatalogQuery) -> (result:
        Result<Vec<CatalogEntity>, ConnectorError>)
        ensures
            exists|source: EntitySource|
                #![trigger collection_source(*profile, source)]
                collection_source(*profile, source) && is_entities_result(
                    result,
                    match collection_names(answer@) {
                        Err(error) => Err(error),
                        Ok(names) => found_entities(names, source, *query),
                    },
                ),
    {
        let comment = match &profile.database {
            None => CommentSource::Absent,
            Some(database) => CommentSource::Fixed(appended("database=", database.as_str())),
        };
        let source = EntitySource {
            namespace: "collection",
            kind: "collection",
            name: None,
            comment,
        };
        assert(collection_source(*profile, source));
        match check_milvus_response(answer) {
            Err(error) => {
                return Err(error);
            },
            Ok(()) => {},
        }
        let names = match answer.get("data") {
            None => None,
            Some(Json::Array(names)) => Some(names),
            Some(data) => find_list(data, "collectionNames"),
        };
        match names {
            None => Err(protocol("Milvus response omitted collection names")),
            Some(names) => read_entities(names, &source, query),
        }
    }

    /// The request for the description of a collection.
    pub fn describe_request(profile: &ConnectionProfile, entity_id: &str) -> (result: Result<
        HttpRequest,
        ConnectorError,
    >)
        ensures
            is_request_result(
                result,
                match target_error(entity_id@) {
                    Some(error) => Err(error),
                    None => describe_call(*profile, entity_id@),
                },
            ),
    {
        match validate_target(entity_id) {
            Err(error) => {
                return Err(error);
            },
            Ok(()) => {},
        }
        make_action(profile, "collections", "describe", start_body(profile, entity_id))
    }

    /// Describes a collection.
    pub fn describe_entity(entity_id: &str, answer: &Json) -> (result: Result<
        EntityDescription,
        ConnectorError,
    >)
        ensures
            is_description_result(result, collection_description(entity_id@, answer@)),
    {
        match check_milvus_response(answer) {
            Err(error) => {
                return Err(error);
            },
            Ok(()) => {},
        }
        let data = match answer.get("data") {
            None => {
                return Err(protocol("Milvus response omitted collection description"));
            },
            Some(data) => data,
        };
        let fields = match find_list(data, "fields") {
            Some(fields) => json_to_records(fields),
            None => Vec::new(),
        };
        let metadata = add_members(
            DbRecord::new(),
            data,
            &[
                "collectionName",
                "description",
                "enableDynamicField",
                "partitionsNum",
                "shardsNum",
                "consistencyLevel",
            ],
        );
        Ok(
            EntityDescription {
                entity: CatalogEntity {
                    id: entity_id.to_owned(),
                    namespace: Some("collection".to_owned()),
                    name: entity_id.to_owned(),
                    kind: "collection".to_owned(),
                    comment: owned_optional(as_text(data.get("description"))),
                },
                fields,
                metadata,
                truncated: false,
                warnings: Vec::new(),
            },
        )
    }

    /// Begins an operation.
    pub fn begin_operation(
        context: &ConnectorContext,
        profile: &ConnectionProfile,
        operation: &DataOperation,
    ) -> (result: Result<MilvusPlan, ConnectorError>)
        ensures
            is_plan_result(result, *context, *profile, *operation),
    {
        match operation {
            DataOperation::Read(request) => plan_call(begin_read(context, profile, request)),
            DataOperation::Search(request) => plan_call(begin_search(context, profile, request)),
            DataOperation::VectorSearch(request) => plan_call(
                begin_vector_search(context, profile, request),
            ),
            DataOperation::Insert(request) => plan_call(begin_insert(profile, request)),
            DataOperation::VectorUpsert(request) => match begin_upsert(profile, request) {
                Err(error) => Err(error),
                Ok(made) => Ok(MilvusPlan::Describe(made)),
            },
            DataOperation::Delete(request) => plan_call(begin_delete(profile, request)),
            DataOperation::NativeQuery(request) => plan_call(begin_native(profile, request)),
            _ => Err(unsupported("operation is not supported by Milvus REST")),
        }
    }
}

/// A native query that is sent only reads: it goes to one of the reading actions.
pub proof fn lemma_native_queries_only_read(
    profile: ConnectionProfile,
    envelope: Result<EnvelopeModel, ErrorModel>,
)
    ensures
        native_read_call(profile, envelope) is Ok ==> envelope is Ok && reading_paths().contains(
            envelope->Ok_0.path,
        ),
{
}

/// Following the cursor of a page goes on with the first record that the page left out.
pub proof fn lemma_pages_follow_each_other(
    context: ConnectorContext,
    profile: ConnectionProfile,
    found: Seq<RecordModel>,
    limit: usize,
    offset: usize,
    sizes: Seq<u64>,
    elapsed_ms: u64,
)
    requires
        sizes.len() == found.len(),
        limit <= context.max_rows,
        limit <= profile.policy.max_rows,
    ensures
        page_outcome(context, profile, found, limit, offset, sizes, elapsed_ms) matches Ok(result)
            ==> {
            let kept = result.records.len();
            &&& result.records == found.subrange(0, kept as int)
            &&& result.next_cursor is Some <==> kept < found.len()
            &&& result.next_cursor matches Some(cursor) ==> cursor_result(Some(cursor)) == Ok::<
                int,
                ErrorModel,
            >(offset + kept)
        },
{
    let kept = kept_count(sizes, limit as nat, byte_limit(context, profile));
    lemma_prefix_is_kept(context, profile, found, sizes, limit as nat);
    if offset + kept <= usize::MAX {
        lemma_cursor_round_trip((offset + kept) as usize);
    }
}

/// The connector takes up no operation that its manifest does not name, and in particular no
/// native write.
pub proof fn lemma_only_named_operations_start(
    context: ConnectorContext,
    profile: ConnectionProfile,
    operation: DataOperation,
    result: Result<MilvusPlan, ConnectorError>,
)
    ensures
        is_plan_result(result, context, profile, operation) && result is Ok ==> covers(
            milvus_capabilities(),
            operation,
        ),
        !milvus_capabilities().contains(Capability::NativeExecute),
{
    let list = milvus_capabilities();
    assert(list[0] == Capability::TestConnection);
    assert(list[1] == Capability::Discover);
    assert(list[2] == Capability::Describe);
    assert(list[3] == Capability::Read);
    assert(list[4] == Capability::Insert);
    assert(list[5] == Capability::Upsert);
    assert(list[6] == Capability::Delete);
    assert(list[7] == Capability::Batch);
    assert(list[8] == Capability::NativeQuery);
    assert(list[9] == Capability::VectorSearch);
}

} // verus!
