//! Qdrant.
use crate::convert::{is_json_list_result, is_json_result, record_json, record_to_json};
use crate::http::auth::{client_plan, client_result, is_optional_result, AuthStyle, ClientPlan};
use crate::http::common::{
    affected_error, asks_elsewhere, byte_limit, effective_bytes, effective_rows, ensure_language,
    find_nested, finish_prefix, finish_read, finish_write, finished_prefix, finished_read,
    finished_write, fitting_prefix, found_entities, generic_records, is_elsewhere,
    is_entities_result, is_records_result, language_error, lemma_prefix_is_kept, member_value,
    mismatch, mismatch_error, nested, parameters_error, prefix_result, profile_error, read_entities,
    read_member_value, records_from_generic_json, rows_result, target_error, validate_affected,
    validate_native_parameters, validate_profile, validate_target, CommentSource, EntitySource,
};
use crate::http::native::{
    envelope_document, envelope_result, native_request, native_result, parse_native_envelope,
    EnvelopeModel, NativeHttpEnvelope,
};
use crate::http::qdrant_query::{
    condition, cursor_document, cursor_text, decode_cursor, encode_cursor,
    ensure_qdrant_write_completed, filter_ids, id_document_error, is_native_read, point_records,
    qdrant_filter, qdrant_id_from_str, qdrant_ids, qdrant_native_read_path, qdrant_query_records,
    query_records, read_points, text_id, validate_qdrant_id_value, write_error,
};
use crate::http::transport::{
    api_request, group_pairs, is_request_result, make_request, pairs, plain_request, request,
    BodyModel, HttpBody, HttpMethod, HttpRequest, MethodModel, RequestModel,
};
use crate::json::{
    as_items, as_text, copy_members, find, items_of, member, number, optional_json, single,
    text_documents, text_of, texts_to_json, vector_documents, with_member, wrap, write_vector,
    JsonObject,
};
use crate::model::{
    covers, error_of, failing, failure, first_error, invalid, invalid_request,
    is_description_result, is_info_result, is_result_of, protocol, protocol_failure, unsupported,
    unsupported_request, AuthKind, Capability, CatalogEntity, CatalogQuery, ConnectionInfo,
    ConnectionProfile, ConnectorContext, ConnectorError, ConnectorManifest, ConnectorStatus,
    DataOperation, DeleteRequest, DescriptionModel, EntityDescription, EntityModel, ErrorCategory,
    ErrorModel, InfoModel, NativeRequest, OperationResult, Product, ReadRequest, ResultModel,
    SearchRequest, SecretMaterial, VectorPoint, VectorSearchRequest, VectorUpsertRequest,
};
use crate::text::{
    contains_text, decimal, lower, names_of, occurs_in, optional_str, optional_text, owned_optional,
    texts, to_lower,
};
use crate::value::{
    documents, doubles, members, named, records, with_entry, DbRecord, DbValue, Json, JsonModel,
    RecordModel, ValueModel,
};
use vstd::prelude::*;
use vstd::utf8::encode_utf8;

verus! {

broadcast use {
    crate::text::group_texts,
    crate::value::group_models,
    crate::model::group_entities,
    group_pairs,
};

/// How the answer to a request is read.
#[derive(Debug, Clone, Copy, PartialEq, Eq, Structural)]
pub enum QdrantReading {
    Scroll,
    Query,
    Write { count: u64 },
    Native,
}

/// A request, and how its answer is read.
#[derive(Debug)]
pub struct QdrantCall {
    pub request: HttpRequest,
    pub reading: QdrantReading,
}

/// Whether a request is what is expected of it.
pub open spec fn is_call_result(
    result: Result<QdrantCall, ConnectorError>,
    expected: Result<(RequestModel, QdrantReading), ErrorModel>,
) -> bool {
    match (result, expected) {
        (Ok(call), Ok((wanted, reading))) => call.request@ == wanted && call.reading == reading,
        (Err(error), Err(wanted)) => error@ == wanted,
        _ => false,
    }
}

/// A request together with how its answer is read.
pub open spec fn call_of(request: Result<RequestModel, ErrorModel>, reading: QdrantReading) -> Result<
    (RequestModel, QdrantReading),
    ErrorModel,
> {
    match request {
        Err(error) => Err(error),
        Ok(request) => Ok((request, reading)),
    }
}

/// A request to the points of a collection.
pub open spec fn points_request(
    profile: ConnectionProfile,
    method: MethodModel,
    collection: Seq<char>,
    action: Option<Seq<char>>,
    query: Seq<(Seq<char>, Seq<char>)>,
    body: Seq<(Seq<char>, JsonModel)>,
) -> Result<RequestModel, ErrorModel> {
    let path = names_of(["collections"]@).push(collection).push("points"@);
    api_request(
        profile,
        method,
        match action {
            Some(action) => path.push(action),
            None => path,
        },
        query,
        BodyModel::Json(JsonModel::Object(body)),
    )
}

/// Makes a request to the points of a collection.
fn make_points_request(
    profile: &ConnectionProfile,
    method: HttpMethod,
    collection: &str,
    action: Option<&str>,
    query: Vec<(String, String)>,
    body: JsonObject,
    reading: QdrantReading,
) -> (result: Result<QdrantCall, ConnectorError>)
    ensures
        is_call_result(
            result,
            call_of(
                points_request(
                    *profile,
                    method@,
                    collection@,
                    optional_str(action),
                    pairs(query@),
                    body@,
                ),
                reading,
            ),
        ),
{
    let document = HttpBody::Json(body.finish());
    let request = match action {
        Some(action) => {
            assert(names_of(["collections", collection, "points", action]@) =~= names_of(
                ["collections"]@,
            ).push(collection@).push("points"@).push(action@));
            make_request(
                profile,
                method,
                &["collections", collection, "points", action],
                query,
                document,
            )
        },
        None => {
            assert(names_of(["collections", collection, "points"]@) =~= names_of(
                ["collections"]@,
            ).push(collection@).push("points"@));
            make_request(
                profile,
                method,
                &["collections", collection, "points"],
                query,
                document,
            )
        },
    };
    match request {
        Err(error) => Err(error),
        Ok(request) => Ok(QdrantCall { request, reading }),
    }
}

/// The request of a read of points.
pub open spec fn read_call(
    context: ConnectorContext,
    profile: ConnectionProfile,
    request: ReadRequest,
) -> Result<(RequestModel, QdrantReading), ErrorModel> {
    match target_error(request.target@) {
        Some(error) => Err(error),
        None => if request.options.sort@.len() > 0 {
            Err(
                unsupported_request("Qdrant scroll does not support the generic sort contract"@),
            )
        } else {
            match rows_result(context, profile, request.options.limit) {
                Err(error) => Err(error),
                Ok(limit) => {
                    let body = Seq::empty().push(
                        ("limit"@, JsonModel::Number(decimal(limit as nat))),
                    ).push(
                        (
                            "with_payload"@,
                            if request.fields@.len() == 0 {
                                JsonModel::Bool(true)
                            } else {
                                single(
                                    "include"@,
                                    JsonModel::Array(text_documents(texts(request.fields@))),
                                )
                            },
                        ),
                    ).push(("with_vector"@, JsonModel::Bool(false)));
                    match scroll_scope(body, request) {
                        Err(error) => Err(error),
                        Ok(body) => call_of(
                            points_request(
                                profile,
                                MethodModel::Post,
                                request.target@,
                                Some("scroll"@),
                                Seq::empty(),
                                body,
                            ),
                            QdrantReading::Scroll,
                        ),
                    }
                },
            }
        },
    }
}

/// The body of a read of points with its condition and the point to go on from.
pub open spec fn scroll_scope(body: Seq<(Seq<char>, JsonModel)>, request: ReadRequest) -> Result<
    Seq<(Seq<char>, JsonModel)>,
    ErrorModel,
> {
    let filtered = match request.filter {
        None => Ok(body),
        Some(filter) => match condition(filter) {
            Err(error) => Err(error),
            Ok(document) => Ok(body.push(("filter"@, document))),
        },
    };
    match filtered {
        Err(error) => Err(error),
        Ok(body) => match optional_text(request.options.cursor) {
            None => Ok(body),
            Some(cursor) => match cursor_document(cursor) {
                Err(error) => Err(error),
                Ok(offset) => match id_document_error(offset) {
                    Some(error) => Err(error),
                    None => Ok(body.push(("offset"@, offset))),
                },
            },
        },
    }
}

/// Makes the request of a read of points.
pub fn begin_read(context: &ConnectorContext, profile: &ConnectionProfile, request: &ReadRequest) -> (result:
    Result<QdrantCall, ConnectorError>)
    ensures
        is_call_result(result, read_call(*context, *profile, *request)),
{
    match validate_target(request.target.as_str()) {
        Err(error) => {
            return Err(error);
        },
        Ok(()) => {},
    }
    if request.options.sort.len() > 0 {
        return Err(unsupported("Qdrant scroll does not support the generic sort contract"));
    }
    let limit: usize = match effective_rows(context, profile, request.options.limit) {
        Err(error) => {
            return Err(error);
        },
        Ok(limit) => limit,
    };
    let mut body = JsonObject::new();
    body.put("limit", number(limit as u64));
    if request.fields.len() == 0 {
        body.put("with_payload", Json::Bool(true));
    } else {
        body.put("with_payload", wrap("include", Json::Array(texts_to_json(&request.fields))));
    }
    body.put("with_vector", Json::Bool(false));
    match &request.filter {
        None => {},
        Some(filter) => match qdrant_filter(filter) {
            Err(error) => {
                return Err(error);
            },
            Ok(document) => {
                body.put("filter", document);
            },
        },
    }
    match &request.options.cursor {
        None => {},
        Some(cursor) => {
            let offset = match decode_cursor(cursor.as_str()) {
                Err(error) => {
                    return Err(error);
                },
                Ok(offset) => offset,
            };
            match validate_qdrant_id_value(&offset) {
                Err(error) => {
                    return Err(error);
                },
                Ok(()) => {},
            }
            body.put("offset", offset);
        },
    }
    make_points_request(
        profile,
        HttpMethod::Post,
        request.target.as_str(),
        Some("scroll"),
        Vec::new(),
        body,
        QdrantReading::Scroll,
    )
}

/// The request of a query in the product's own form.
pub open spec fn search_call(
    context: ConnectorContext,
    profile: ConnectionProfile,
    request: SearchRequest,
) -> Result<(RequestModel, QdrantReading), ErrorModel> {
    match target_error(request.target@) {
        Some(error) => Err(error),
        None => if request.options.cursor is Some || request.options.sort@.len() > 0 {
            Err(
                unsupported_request(
                    "Qdrant universal query does not map generic cursor or sort options"@,
                ),
            )
        } else {
            match rows_result(context, profile, request.options.limit) {
                Err(error) => Err(error),
                Ok(limit) => match request.query@ {
                    JsonModel::Object(list) => {
                        let body = with_member(
                            list,
                            "limit"@,
                            JsonModel::Number(decimal(limit as nat)),
                        );
                        let body = if named(body, "with_payload"@) is Some {
                            body
                        } else {
                            with_member(body, "with_payload"@, JsonModel::Bool(true))
                        };
                        call_of(
                            points_request(
                                profile,
                                MethodModel::Post,
                                request.target@,
                                Some("query"@),
                                Seq::empty(),
                                body,
                            ),
                            QdrantReading::Query,
                        )
                    },
                    _ => Err(invalid_request("Qdrant search query must be a JSON object"@)),
                },
            }
        },
    }
}

/// Makes the request of a query in the product's own form.
pub fn begin_search(context: &ConnectorContext, profile: &ConnectionProfile, request: &SearchRequest) -> (result:
    Result<QdrantCall, ConnectorError>)
    ensures
        is_call_result(result, search_call(*context, *profile, *request)),
{
    match validate_target(request.target.as_str()) {
        Err(error) => {
            return Err(error);
        },
        Ok(()) => {},
    }
    if request.options.cursor.is_some() || request.options.sort.len() > 0 {
        return Err(
            unsupported("Qdrant universal query does not map generic cursor or sort options"),
        );
    }
    let limit: usize = match effective_rows(context, profile, request.options.limit) {
        Err(error) => {
            return Err(error);
        },
        Ok(limit) => limit,
    };
    let mut body = match &request.query {
        Json::Object(list) => JsonObject { members: copy_members(list) },
        _ => {
            return Err(invalid("Qdrant search query must be a JSON object"));
        },
    };
    body.set("limit", number(limit as u64));
    if find(&body.members, "with_payload").is_none() {
        body.set("with_payload", Json::Bool(true));
    }
    make_points_request(
        profile,
        HttpMethod::Post,
        request.target.as_str(),
        Some("query"),
        Vec::new(),
        body,
        QdrantReading::Query,
    )
}

/// The request of a search for the nearest vectors.
pub open spec fn vector_search_call(
    context: ConnectorContext,
    profile: ConnectionProfile,
    request: VectorSearchRequest,
) -> Result<(RequestModel, QdrantReading), ErrorModel> {
    match target_error(request.target@) {
        Some(error) => Err(error),
        None => if request.namespace is Some {
            Err(unsupported_request("Qdrant does not provide Pinecone-style namespaces"@))
        } else {
            match rows_result(context, profile, request.top_k) {
                Err(error) => Err(error),
                Ok(limit) => {
                    let body = Seq::empty().push(
                        ("query"@, JsonModel::Array(vector_documents(doubles(request.vector@)))),
                    ).push(("limit"@, JsonModel::Number(decimal(limit as nat)))).push(
                        ("with_payload"@, JsonModel::Bool(true)),
                    ).push(("with_vector"@, JsonModel::Bool(request.include_vectors)));
                    call_of(
                        points_request(
                            profile,
                            MethodModel::Post,
                            request.target@,
                            Some("query"@),
                            Seq::empty(),
                            match request.filter {
                                Some(filter) => body.push(("filter"@, filter@)),
                                None => body,
                            },
                        ),
                        QdrantReading::Query,
                    )
                },
            }
        },
    }
}

/// Makes the request of a search for the nearest vectors.
pub fn begin_vector_search(
    context: &ConnectorContext,
    profile: &ConnectionProfile,
    request: &VectorSearchRequest,
) -> (result: Result<QdrantCall, ConnectorError>)
    ensures
        is_call_result(result, vector_search_call(*context, *profile, *request)),
{
    match validate_target(request.target.as_str()) {
        Err(error) => {
            return Err(error);
        },
        Ok(()) => {},
    }
    if request.namespace.is_some() {
        return Err(unsupported("Qdrant does not provide Pinecone-style namespaces"));
    }
    let limit: usize = match effective_rows(context, profile, request.top_k) {
        Err(error) => {
            return Err(error);
        },
        Ok(limit) => limit,
    };
    let mut body = JsonObject::new();
    body.put("query", write_vector(&request.vector));
    body.put("limit", number(limit as u64));
    body.put("with_payload", Json::Bool(true));
    body.put("with_vector", Json::Bool(request.include_vectors));
    match &request.filter {
        Some(filter) => {
            body.put("filter", filter.copy());
        },
        None => {},
    }
    make_points_request(
        profile,
        HttpMethod::Post,
        request.target.as_str(),
        Some("query"),
        Vec::new(),
        body,
        QdrantReading::Query,
    )
}

/// The document of a vector with what belongs to it.
pub open spec fn point_document(point: VectorPoint) -> Result<JsonModel, ErrorModel> {
    match text_id(point.id@) {
        Err(error) => Err(error),
        Ok(id) => match record_json(point.metadata@) {
            Err(error) => Err(error),
            Ok(payload) => Ok(
                JsonModel::Object(
                    Seq::empty().push(("id"@, id)).push(
                        ("vector"@, JsonModel::Array(vector_documents(doubles(point.vector@)))),
                    ).push(("payload"@, payload)),
                ),
            ),
        },
    }
}

/// The documents of vectors; the error of the first that has one.
pub open spec fn point_documents(points: Seq<VectorPoint>) -> Result<Seq<JsonModel>, ErrorModel>
    decreases points.len(),
{
    if points.len() == 0 {
        Ok(Seq::empty())
    } else {
        match point_documents(points.drop_last()) {
            Err(error) => Err(error),
            Ok(before) => match point_document(points.last()) {
                Err(error) => Err(error),
                Ok(document) => Ok(before.push(document)),
            },
        }
    }
}

/// Where some first vectors have an error, all of them have that one.
proof fn lemma_points_fail_early(points: Seq<VectorPoint>, count: int)
    requires
        0 <= count <= points.len(),
        point_documents(points.subrange(0, count)) is Err,
    ensures
        point_documents(points) == point_documents(points.subrange(0, count)),
    decreases points.len(),
{
    if count == points.len() {
        assert(points.subrange(0, count) =~= points);
    } else {
        assert(points.drop_last().subrange(0, count) =~= points.subrange(0, count));
        lemma_points_fail_early(points.drop_last(), count);
    }
}

/// Writes the document of a vector.
fn write_point(point: &VectorPoint) -> (result: Result<Json, ConnectorError>)
    ensures
        is_json_result(result, point_document(*point)),
{
    let id = match qdrant_id_from_str(point.id.as_str()) {
        Err(error) => {
            return Err(error);
        },
        Ok(id) => id,
    };
    let payload = match record_to_json(&point.metadata) {
        Err(error) => {
            return Err(error);
        },
        Ok(payload) => payload,
    };
    let mut object = JsonObject::new();
    object.put("id", id);
    object.put("vector", write_vector(&point.vector));
    object.put("payload", payload);
    Ok(object.finish())
}

/// Writes the documents of vectors.
fn write_points(points: &Vec<VectorPoint>) -> (result: Result<Vec<Json>, ConnectorError>)
    ensures
        is_json_list_result(result, point_documents(points@)),
{
    let ghost all = points@;
    let mut items: Vec<Json> = Vec::new();
    let mut i: usize = 0;
    assert(all.subrange(0, 0) =~= Seq::<VectorPoint>::empty());
    while i < points.len()
        invariant
            i <= points@.len(),
            all == points@,
            point_documents(all.subrange(0, i as int)) == Ok::<Seq<JsonModel>, ErrorModel>(
                documents(items@),
            ),
        decreases points@.len() - i,
    {
        assert(all.subrange(0, i + 1).drop_last() =~= all.subrange(0, i as int));
        match write_point(&points[i]) {
            Err(error) => {
                proof {
                    lemma_points_fail_early(all, i + 1);
                }
                return Err(error);
            },
            Ok(document) => {
                items.push(document);
            },
        }
        i = i + 1;
    }
    assert(all.subrange(0, i as int) =~= all);
    Ok(items)
}

/// The parameter that makes a write wait until it is completed.
pub open spec fn waiting() -> Seq<(Seq<char>, Seq<char>)> {
    Seq::empty().push(("wait"@, "true"@))
}

/// The parameter that makes a write wait until it is completed.
fn wait_parameter() -> (result: Vec<(String, String)>)
    ensures
        pairs(result@) == waiting(),
{
    let mut query: Vec<(String, String)> = Vec::new();
    query.push(("wait".to_owned(), "true".to_owned()));
    query
}

/// The request of a write of vectors.
pub open spec fn upsert_call(profile: ConnectionProfile, request: VectorUpsertRequest) -> Result<
    (RequestModel, QdrantReading),
    ErrorModel,
> {
    match target_error(request.target@) {
        Some(error) => Err(error),
        None => if request.namespace is Some {
            Err(unsupported_request("Qdrant does not provide Pinecone-style namespaces"@))
        } else {
            match affected_error(profile, profile.policy.max_affected, request.points@.len()) {
                Some(error) => Err(error),
                None => match point_documents(request.points@) {
                    Err(error) => Err(error),
                    Ok(items) => call_of(
                        points_request(
                            profile,
                            MethodModel::Put,
                            request.target@,
                            None,
                            waiting(),
                            Seq::empty().push(("points"@, JsonModel::Array(items))),
                        ),
                        QdrantReading::Write { count: request.points@.len() as u64 },
                    ),
                },
            }
        },
    }
}

/// Makes the request of a write of vectors.
pub fn begin_upsert(profile: &ConnectionProfile, request: &VectorUpsertRequest) -> (result: Result<
    QdrantCall,
    ConnectorError,
>)
    ensures
        is_call_result(result, upsert_call(*profile, *request)),
{
    match validate_target(request.target.as_str()) {
        Err(error) => {
            return Err(error);
        },
        Ok(()) => {},
    }
    if request.namespace.is_some() {
        return Err(unsupported("Qdrant does not provide Pinecone-style namespaces"));
    }
    match validate_affected(profile, profile.policy.max_affected, request.points.len()) {
        Err(error) => {
            return Err(error);
        },
        Ok(()) => {},
    }
    let items = match write_points(&request.points) {
        Err(error) => {
            return Err(error);
        },
        Ok(items) => items,
    };
    let mut body = JsonObject::new();
    body.put("points", Json::Array(items));
    make_points_request(
        profile,
        HttpMethod::Put,
        request.target.as_str(),
        None,
        wait_parameter(),
        body,
        QdrantReading::Write { count: request.points.len() as u64 },
    )
}

/// The request of a removal of points that are named by their identities.
pub open spec fn delete_call(profile: ConnectionProfile, request: DeleteRequest) -> Result<
    (RequestModel, QdrantReading),
    ErrorModel,
> {
    match target_error(request.target@) {
        Some(error) => Err(error),
        None => match filter_ids(request.filter) {
            Err(error) => Err(error),
            Ok(ids) => match affected_error(profile, request.max_affected, ids.len()) {
                Some(error) => Err(error),
                None => call_of(
                    points_request(
                        profile,
                        MethodModel::Post,
                        request.target@,
                        Some("delete"@),
                        waiting(),
                        Seq::empty().push(("points"@, JsonModel::Array(ids))),
                    ),
                    QdrantReading::Write { count: ids.len() as u64 },
                ),
            },
        },
    }
}

/// Makes the request of a removal of points.
pub fn begin_delete(profile: &ConnectionProfile, request: &DeleteRequest) -> (result: Result<
    QdrantCall,
    ConnectorError,
>)
    ensures
        is_call_result(result, delete_call(*profile, *request)),
{
    match validate_target(request.target.as_str()) {
        Err(error) => {
            return Err(error);
        },
        Ok(()) => {},
    }
    let ids = match qdrant_ids(&request.filter) {
        Err(error) => {
            return Err(error);
        },
        Ok(ids) => ids,
    };
    assert(documents(ids@).len() == ids@.len());
    match validate_affected(profile, request.max_affected, ids.len()) {
        Err(error) => {
            return Err(error);
        },
        Ok(()) => {},
    }
    let count: u64 = ids.len() as u64;
    let mut body = JsonObject::new();
    body.put("points", Json::Array(ids));
    make_points_request(
        profile,
        HttpMethod::Post,
        request.target.as_str(),
        Some("delete"),
        wait_parameter(),
        body,
        QdrantReading::Write { count },
    )
}

/// The native request of a parsed envelope.
pub open spec fn native_read_call(
    profile: ConnectionProfile,
    envelope: Result<EnvelopeModel, ErrorModel>,
) -> Result<(RequestModel, QdrantReading), ErrorModel> {
    match envelope {
        Err(error) => Err(error),
        Ok(envelope) => if !is_native_read(envelope.method, envelope.path) {
            Err(
                failure(
                    ErrorCategory::PermissionDenied,
                    "native Qdrant query is not a read-only collection or points endpoint"@,
                ),
            )
        } else {
            call_of(native_result(profile, envelope), QdrantReading::Native)
        },
    }
}

/// The request of a native query.
pub open spec fn native_call(profile: ConnectionProfile, request: NativeRequest) -> Result<
    (RequestModel, QdrantReading),
    ErrorModel,
> {
    match language_error(request.language@, names_of(["qdrant_http", "json"]@)) {
        Some(error) => Err(error),
        None => match parameters_error(request) {
            Some(error) => Err(error),
            None => native_read_call(
                profile,
                envelope_result(
                    envelope_document(encode_utf8(request.statement@)),
                    true,
                    names_of(["/collections"]@),
                ),
            ),
        },
    }
}

/// Makes the native request of a parsed envelope.
pub fn accept_native(profile: &ConnectionProfile, envelope: NativeHttpEnvelope) -> (result: Result<
    QdrantCall,
    ConnectorError,
>)
    ensures
        is_call_result(result, native_read_call(*profile, Ok(envelope@))),
{
    if !qdrant_native_read_path(&envelope.method, envelope.path.as_str()) {
        return Err(
            ConnectorError::new(
                ErrorCategory::PermissionDenied,
                "native Qdrant query is not a read-only collection or points endpoint",
            ),
        );
    }
    match native_request(profile, envelope) {
        Err(error) => Err(error),
        Ok(request) => Ok(QdrantCall { request, reading: QdrantReading::Native }),
    }
}

/// Makes the request of a native query.
pub fn begin_native(profile: &ConnectionProfile, request: &NativeRequest) -> (result: Result<
    QdrantCall,
    ConnectorError,
>)
    ensures
        is_call_result(result, native_call(*profile, *request)),
{
    match ensure_language(request.language.as_str(), &["qdrant_http", "json"]) {
        Err(error) => {
            return Err(error);
        },
        Ok(()) => {},
    }
    match validate_native_parameters(request) {
        Err(error) => {
            return Err(error);
        },
        Ok(()) => {},
    }
    match parse_native_envelope(request.statement.as_str(), true, &["/collections"]) {
        Err(error) => Err(error),
        Ok(envelope) => accept_native(profile, envelope),
    }
}

/// The request of an operation.
pub open spec fn operation_call(
    context: ConnectorContext,
    profile: ConnectionProfile,
    operation: DataOperation,
) -> Result<(RequestModel, QdrantReading), ErrorModel> {
    match operation {
        DataOperation::Read(request) => read_call(context, profile, request),
        DataOperation::Search(request) => search_call(context, profile, request),
        DataOperation::VectorSearch(request) => vector_search_call(context, profile, request),
        DataOperation::VectorUpsert(request) => upsert_call(profile, request),
        DataOperation::Delete(request) => delete_call(profile, request),
        DataOperation::NativeQuery(request) => native_call(profile, request),
        _ => Err(unsupported_request("operation is not supported by Qdrant REST"@)),
    }
}

/// The points of an answer to a read.
pub open spec fn scroll_points(answer: JsonModel) -> Result<Seq<JsonModel>, ErrorModel> {
    match items_of(nested(answer, "result"@, "points"@)) {
        None => Err(protocol_failure("Qdrant scroll response omitted points"@)),
        Some(points) => Ok(points),
    }
}

/// The records of an answer, before the limit of bytes is applied.
pub open spec fn answer_records(reading: QdrantReading, answer: JsonModel) -> Result<
    Seq<RecordModel>,
    ErrorModel,
> {
    match reading {
        QdrantReading::Scroll => match scroll_points(answer) {
            Err(error) => Err(error),
            Ok(points) => Ok(point_records(points)),
        },
        QdrantReading::Query => query_records(answer),
        QdrantReading::Write { .. } => Ok(Seq::empty()),
        QdrantReading::Native => Ok(generic_records(answer)),
    }
}

/// Reads the records of an answer, before the limit of bytes is applied.
pub fn read_records(reading: QdrantReading, answer: &Json) -> (result: Result<
    Vec<DbRecord>,
    ConnectorError,
>)
    ensures
        is_records_result(result, answer_records(reading, answer@)),
{
    match reading {
        QdrantReading::Scroll => match as_items(find_nested(answer, "result", "points")) {
            None => Err(protocol("Qdrant scroll response omitted points")),
            Some(points) => Ok(read_points(points)),
        },
        QdrantReading::Query => qdrant_query_records(answer),
        QdrantReading::Write { .. } => Ok(Vec::new()),
        QdrantReading::Native => Ok(records_from_generic_json(answer)),
    }
}

/// The cursor behind the first `kept` points of an answer: the first point that is left, or the
/// one that the server goes on with.
pub open spec fn scroll_cursor(points: Seq<JsonModel>, kept: nat, answer: JsonModel) -> Result<
    Option<Seq<char>>,
    ErrorModel,
> {
    if kept < points.len() {
        match member(points[kept as int], "id"@) {
            None => Err(
                protocol_failure("Qdrant scroll point omitted the id required for pagination"@),
            ),
            Some(id) => match id_document_error(id) {
                Some(error) => Err(error),
                None => match cursor_text(id) {
                    Err(error) => Err(error),
                    Ok(cursor) => Ok(Some(cursor)),
                },
            },
        }
    } else {
        match nested(answer, "result"@, "next_page_offset"@) {
            Some(offset) if !(offset is Null) => match cursor_text(offset) {
                Err(error) => Err(error),
                Ok(cursor) => Ok(Some(cursor)),
            },
            _ => Ok(None),
        }
    }
}

/// The result of a read whose points have the given encoded sizes.
pub open spec fn scroll_outcome(
    context: ConnectorContext,
    profile: ConnectionProfile,
    answer: JsonModel,
    sizes: Seq<u64>,
    elapsed_ms: u64,
) -> Result<ResultModel, ErrorModel> {
    match scroll_points(answer) {
        Err(error) => Err(error),
        Ok(points) => match prefix_result(
            sizes,
            sizes.len(),
            byte_limit(context, profile),
            "the first Qdrant point exceeds the configured max_bytes limit"@,
        ) {
            Err(error) => Err(error),
            Ok(kept) => match scroll_cursor(points, kept, answer) {
                Err(error) => Err(error),
                Ok(cursor) => finished_prefix(
                    context,
                    profile,
                    point_records(points),
                    sizes,
                    kept,
                    cursor,
                    false,
                    elapsed_ms,
                ),
            },
        },
    }
}

/// The result of an operation whose answer holds records of the given encoded sizes.
pub open spec fn operation_outcome(
    context: ConnectorContext,
    profile: ConnectionProfile,
    reading: QdrantReading,
    answer: JsonModel,
    sizes: Seq<u64>,
    elapsed_ms: u64,
) -> Result<ResultModel, ErrorModel> {
    match reading {
        QdrantReading::Scroll => scroll_outcome(context, profile, answer, sizes, elapsed_ms),
        QdrantReading::Write { count } => match write_error(answer) {
            Some(error) => Err(error),
            None => finished_write(context, profile, count, elapsed_ms),
        },
        QdrantReading::Query | QdrantReading::Native => match answer_records(reading, answer) {
            Err(error) => Err(error),
            Ok(found) => finished_read(context, profile, found, sizes, elapsed_ms),
        },
    }
}

/// The cursor behind the first `kept` points of an answer.
fn find_scroll_cursor(points: &Vec<Json>, kept: usize, answer: &Json) -> (result: Result<
    Option<String>,
    ConnectorError,
>)
    ensures
        is_optional_result(
            result,
            scroll_cursor(documents(points@), kept as nat, answer@),
        ),
{
    if kept < points.len() {
        assert(documents(points@)[kept as int] == points@[kept as int]@);
        let id = match points[kept].get("id") {
            None => {
                return Err(
                    protocol("Qdrant scroll point omitted the id required for pagination"),
                );
            },
            Some(id) => id,
        };
        match validate_qdrant_id_value(id) {
            Err(error) => {
                return Err(error);
            },
            Ok(()) => {},
        }
        return match encode_cursor(id) {
            Err(error) => Err(error),
            Ok(cursor) => Ok(Some(cursor)),
        };
    }
    match find_nested(answer, "result", "next_page_offset") {
        None => Ok(None),
        Some(Json::Null) => Ok(None),
        Some(offset) => match encode_cursor(offset) {
            Err(error) => Err(error),
            Ok(cursor) => Ok(Some(cursor)),
        },
    }
}

/// Makes the result of a read whose points have the given encoded sizes.
fn finish_scroll(
    context: &ConnectorContext,
    profile: &ConnectionProfile,
    answer: &Json,
    sizes: Vec<u64>,
    elapsed_ms: u64,
) -> (result: Result<OperationResult, ConnectorError>)
    requires
        scroll_points(answer@) matches Ok(points) ==> sizes@.len() == points.len(),
    ensures
        is_result_of(
            result,
            scroll_outcome(*context, *profile, answer@, sizes@, elapsed_ms),
        ),
{
    let points = match as_items(find_nested(answer, "result", "points")) {
        None => {
            return Err(protocol("Qdrant scroll response omitted points"));
        },
        Some(points) => points,
    };
    let kept: usize = match fitting_prefix(
        &sizes,
        sizes.len(),
        effective_bytes(context, profile),
        "the first Qdrant point exceeds the configured max_bytes limit",
    ) {
        Err(error) => {
            return Err(error);
        },
        Ok(kept) => kept,
    };
    let next_cursor = match find_scroll_cursor(points, kept, answer) {
        Err(error) => {
            return Err(error);
        },
        Ok(cursor) => cursor,
    };
    let found = read_points(points);
    assert(records(found@).len() == found@.len());
    finish_prefix(context, profile, found, sizes, kept, next_cursor, false, elapsed_ms)
}

/// Makes the result of an operation whose answer holds records of the given encoded sizes.
pub fn finish_operation(
    context: &ConnectorContext,
    profile: &ConnectionProfile,
    reading: QdrantReading,
    answer: &Json,
    sizes: Vec<u64>,
    elapsed_ms: u64,
) -> (result: Result<OperationResult, ConnectorError>)
    requires
        answer_records(reading, answer@) matches Ok(found) ==> sizes@.len() == found.len(),
    ensures
        is_result_of(
            result,
            operation_outcome(*context, *profile, reading, answer@, sizes@, elapsed_ms),
        ),
{
    match reading {
        QdrantReading::Scroll => finish_scroll(context, profile, answer, sizes, elapsed_ms),
        QdrantReading::Write { count } => match ensure_qdrant_write_completed(answer) {
            Err(error) => Err(error),
            Ok(()) => finish_write(context, profile, count, elapsed_ms),
        },
        QdrantReading::Query | QdrantReading::Native => match read_records(reading, answer) {
            Err(error) => Err(error),
            Ok(found) => {
                assert(records(found@).len() == found@.len());
                finish_read(context, profile, found, &sizes, elapsed_ms)
            },
        },
    }
}

/// What a server says of itself: it must be Qdrant.
pub open spec fn qdrant_info(answer: JsonModel) -> Result<InfoModel, ErrorModel> {
    let title = match text_of(member(answer, "title"@)) {
        Some(title) => title,
        None => Seq::empty(),
    };
    if !occurs_in("qdrant"@, lower(title)) {
        Err(mismatch("endpoint did not identify itself as Qdrant"@))
    } else {
        Ok(
            InfoModel {
                product_name: "Qdrant"@,
                product_version: text_of(member(answer, "version"@)),
                api_mode: "qdrant_rest_v1"@,
                server_identity: text_of(member(answer, "commit"@)),
                warnings: Seq::empty(),
            },
        )
    }
}

/// How the collections of an answer are read.
pub open spec fn collection_source() -> EntitySource {
    EntitySource {
        namespace: "collection",
        kind: "collection",
        name: Some("name"),
        comment: CommentSource::Absent,
    }
}

/// The collections that a catalog query found.
pub open spec fn found_collections(answer: JsonModel, query: CatalogQuery) -> Result<
    Seq<EntityModel>,
    ErrorModel,
> {
    match items_of(nested(answer, "result"@, "collections"@)) {
        None => Err(protocol_failure("Qdrant response omitted collections"@)),
        Some(items) => found_entities(items, collection_source(), query),
    }
}

/// What is known of a vector of a collection.
pub open spec fn vector_field(name: Seq<char>, definition: JsonModel) -> RecordModel {
    with_entry(
        with_entry(
            with_entry(
                with_entry(Seq::empty(), "name"@, ValueModel::String(name)),
                "type"@,
                ValueModel::String("vector"@),
            ),
            "dimension"@,
            member_value(definition, "size"@),
        ),
        "distance"@,
        member_value(definition, "distance"@),
    )
}

/// What is known of the vectors of a collection: of a single one, or of named ones.
pub open spec fn vector_fields(vectors: Option<JsonModel>) -> Seq<RecordModel> {
    match vectors {
        Some(JsonModel::Object(list)) => if named(list, "size"@) is Some {
            Seq::empty().push(vector_field("default"@, JsonModel::Object(list)))
        } else {
            Seq::new(list.len(), |i: int| vector_field(list[i].0, list[i].1))
        },
        _ => Seq::empty(),
    }
}

/// The vectors of the description of a collection.
pub open spec fn described_vectors(result: JsonModel) -> Option<JsonModel> {
    match nested(result, "config"@, "params"@) {
        Some(params) => member(params, "vectors"@),
        None => None,
    }
}

/// What the description of a collection says of it.
pub open spec fn collection_description(name: Seq<char>, answer: JsonModel) -> Result<
    DescriptionModel,
    ErrorModel,
> {
    match member(answer, "result"@) {
        None => Err(protocol_failure("Qdrant response omitted collection result"@)),
        Some(result) => Ok(
            DescriptionModel {
                entity: EntityModel {
                    id: name,
                    namespace: Some("collection"@),
                    name,
                    kind: "collection"@,
                    comment: None,
                },
                fields: vector_fields(described_vectors(result)),
                metadata: with_entry(
                    with_entry(Seq::empty(), "status"@, member_value(result, "status"@)),
                    "points_count"@,
                    member_value(result, "points_count"@),
                ),
                truncated: false,
                warnings: Seq::empty(),
            },
        ),
    }
}

/// What is known of a vector of a collection.
fn qdrant_vector_field(name: &str, definition: &Json) -> (result: DbRecord)
    ensures
        result@ == vector_field(name@, definition@),
{
    let mut field = DbRecord::new();
    field.insert("name".to_owned(), DbValue::String(name.to_owned()));
    field.insert("type".to_owned(), DbValue::String("vector".to_owned()));
    field.insert("dimension".to_owned(), read_member_value(definition, "size"));
    field.insert("distance".to_owned(), read_member_value(definition, "distance"));
    field
}

/// What is known of the vectors of a collection.
fn read_vector_fields(vectors: Option<&Json>) -> (result: Vec<DbRecord>)
    ensures
        records(result@) == vector_fields(optional_json(vectors)),
{
    let mut fields: Vec<DbRecord> = Vec::new();
    match vectors {
        Some(vectors) => match vectors {
            Json::Object(list) => {
                if find(list, "size").is_some() {
                    fields.push(qdrant_vector_field("default", vectors));
                    return fields;
                }
                let ghost all = members(list@);
                let mut i: usize = 0;
                while i < list.len()
                    invariant
                        i <= list@.len(),
                        all == members(list@),
                        fields@.len() == i,
                        forall|j: int|
                            0 <= j < i ==> (#[trigger] fields@[j])@ == vector_field(
                                all[j].0,
                                all[j].1,
                            ),
                    decreases list@.len() - i,
                {
                    assert(all[i as int] == (list@[i as int].0@, list@[i as int].1@));
                    fields.push(qdrant_vector_field(list[i].0.as_str(), &list[i].1));
                    i = i + 1;
                }
                assert(records(fields@) =~= Seq::new(
                    all.len(),
                    |i: int| vector_field(all[i].0, all[i].1),
                ));
            },
            _ => {},
        },
        None => {},
    }
    fields
}

/// What the connector for Qdrant can do.
pub open spec fn qdrant_capabilities() -> Seq<Capability> {
    seq![Capability::TestConnection].push(Capability::Discover).push(Capability::Describe).push(
        Capability::Read,
    ).push(Capability::Upsert).push(Capability::Delete).push(Capability::Batch).push(
        Capability::NativeQuery,
    ).push(Capability::VectorSearch)
}

/// The connector for Qdrant.
#[derive(Debug, Clone, Copy)]
pub struct QdrantRestConnector {}

impl Default for QdrantRestConnector {
    fn default() -> (result: QdrantRestConnector) {
        QdrantRestConnector {  }
    }
}

impl QdrantRestConnector {
    /// What the connector says of itself.
    pub fn manifest(&self) -> (result: ConnectorManifest)
        ensures
            result.id@ == "qdrant-rest-v1"@,
            result.display_name@ == "Qdrant REST"@,
            result.product == Product::Qdrant,
            result.api_mode@ == "qdrant_rest_v1"@,
            result.driver@ == "reqwest-rest"@,
            result.driver_version@ == "0.1.0"@,
            result.status == ConnectorStatus::Experimental,
            result.capabilities@ == qdrant_capabilities(),
            result.auth_kinds@ == seq![AuthKind::Anonymous].push(AuthKind::ApiKey).push(
                AuthKind::ClientCertificate,
            ),
            texts(result.limitations@) == seq![
                "uses the Qdrant REST API; gRPC-only features are not exposed"@,
            ].push("delete requires explicit point ids"@).push(
                "collection and snapshot administration are not exposed"@,
            ).push("idempotency keys are enforced by the local runtime, not sent to Qdrant"@),
    {
        let mut capabilities: Vec<Capability> = Vec::new();
        capabilities.push(Capability::TestConnection);
        capabilities.push(Capability::Discover);
        capabilities.push(Capability::Describe);
        capabilities.push(Capability::Read);
        capabilities.push(Capability::Upsert);
        capabilities.push(Capability::Delete);
        capabilities.push(Capability::Batch);
        capabilities.push(Capability::NativeQuery);
        capabilities.push(Capability::VectorSearch);
        let mut auth_kinds: Vec<AuthKind> = Vec::new();
        auth_kinds.push(AuthKind::Anonymous);
        auth_kinds.push(AuthKind::ApiKey);
        auth_kinds.push(AuthKind::ClientCertificate);
        let mut limitations: Vec<String> = Vec::new();
        limitations.push(
            "uses the Qdrant REST API; gRPC-only features are not exposed".to_owned(),
        );
        limitations.push("delete requires explicit point ids".to_owned());
        limitations.push("collection and snapshot administration are not exposed".to_owned());
        limitations.push(
            "idempotency keys are enforced by the local runtime, not sent to Qdrant".to_owned(),
        );
        ConnectorManifest {
            id: "qdrant-rest-v1".to_owned(),
            display_name: "Qdrant REST".to_owned(),
            product: Product::Qdrant,
            api_mode: "qdrant_rest_v1".to_owned(),
            driver: "reqwest-rest".to_owned(),
            driver_version: "0.1.0".to_owned(),
            status: ConnectorStatus::Experimental,
            capabilities,
            auth_kinds,
            limitations,
        }
    }

    /// Refuses profiles that are not for this connector.
    pub fn validate(profile: &ConnectionProfile) -> (result: Result<(), ConnectorError>)
        ensures
            error_of(result) == profile_error(
                *profile,
                Product::Qdrant,
                names_of(["qdrant_rest_v1"]@),
            ),
    {
        validate_profile(profile, Product::Qdrant, &["qdrant_rest_v1"])
    }

    /// Refuses a profile and a credential with which no connection could be made.
    pub fn validate_connection_input(
        profile: &ConnectionProfile,
        secret: &SecretMaterial,
    ) -> (result: Result<(), ConnectorError>)
        ensures
            error_of(result) == first_error(
                profile_error(*profile, Product::Qdrant, names_of(["qdrant_rest_v1"]@)),
                failing(
                    client_result(
                        *profile,
                        secret.kind,
                        secret.fields@,
                        AuthStyle::OptionalApiKeyHeader,
                        Seq::empty(),
                    ),
                ),
            ),
    {
        match Self::validate(profile) {
            Err(error) => {
                return Err(error);
            },
            Ok(_) => {},
        }
        match Self::client(profile, secret) {
            Err(error) => Err(error),
            Ok(_) => Ok(()),
        }
    }

    /// How the client of a connection is set up.
    pub fn client(profile: &ConnectionProfile, secret: &SecretMaterial) -> (result: Result<
        ClientPlan,
        ConnectorError,
    >)
        ensures
            match (
                result,
                client_result(
                    *profile,
                    secret.kind,
                    secret.fields@,
                    AuthStyle::OptionalApiKeyHeader,
                    Seq::empty(),
                ),
            ) {
                (Ok(plan), Ok(wanted)) => plan@ == wanted,
                (Err(error), Err(wanted)) => error@ == wanted,
                _ => false,
            },
    {
        client_plan(profile, secret, AuthStyle::OptionalApiKeyHeader, &Vec::new())
    }

    /// The request for what the server says of itself. It is answered without credentials, so the
    /// collections are asked for as well.
    pub fn test_request(profile: &ConnectionProfile) -> (result: HttpRequest)
        ensures
            result@ == plain_request(MethodModel::Get, profile.endpoint.text@),
    {
        request(HttpMethod::Get, profile.endpoint.text.clone())
    }

    /// What the server says of itself.
    pub fn connection_info(answer: &Json) -> (result: Result<ConnectionInfo, ConnectorError>)
        ensures
            is_info_result(result, qdrant_info(answer@)),
    {
        proof {
            reveal_strlit("");
            assert(""@ =~= Seq::<char>::empty());
        }
        let title = match as_text(answer.get("title")) {
            Some(title) => to_lower(title),
            None => to_lower(""),
        };
        if !contains_text(title.as_str(), "qdrant") {
            return Err(mismatch_error("endpoint did not identify itself as Qdrant"));
        }
        Ok(
            ConnectionInfo {
                product_name: "Qdrant".to_owned(),
                product_version: owned_optional(as_text(answer.get("version"))),
                api_mode: "qdrant_rest_v1".to_owned(),
                server_identity: owned_optional(as_text(answer.get("commit"))),
                warnings: Vec::new(),
            },
        )
    }

    /// The request for the collections.
    pub fn list_request(profile: &ConnectionProfile) -> (result: Result<HttpRequest, ConnectorError>)
        ensures
            is_request_result(
                result,
                api_request(
                    *profile,
                    MethodModel::Get,
                    names_of(["collections"]@),
                    Seq::empty(),
                    BodyModel::Empty,
                ),
            ),
    {
        make_request(profile, HttpMethod::Get, &["collections"], Vec::new(), HttpBody::Empty)
    }

    /// Whether the catalog has nothing of what a query asks for.
    pub fn is_outside(query: &CatalogQuery) -> (result: bool)
        ensures
            result == asks_elsewhere(*query, "collection"@),
    {
        is_elsewhere(query, "collection")
    }

    /// The collections that a catalog query found.
    pub fn catalog_entities(answer: &Json, query: &CatalogQuery) -> (result: Result<
        Vec<CatalogEntity>,
        ConnectorError,
    >)
        ensures
            is_entities_result(result, found_collections(answer@, *query)),
    {
        match as_items(find_nested(answer, "result", "collections")) {
            None => Err(protocol("Qdrant response omitted collections")),
            Some(items) => {
                let source = EntitySource {
                    namespace: "collection",
                    kind: "collection",
                    name: Some("name"),
                    comment: CommentSource::Absent,
                };
                read_entities(items, &source, query)
            },
        }
    }

    /// The request for the description of a collection.
    pub fn describe_request(profile: &ConnectionProfile, entity_id: &str) -> (result: Result<
        HttpRequest,
        ConnectorError,
    >)
        ensures
            is_request_result(
                result,
                match target_error(entity_id@) {
                    Some(error) => Err(error),
                    None => api_request(
                        *profile,
                        MethodModel::Get,
                        names_of(["collections"]@).push(entity_id@),
                        Seq::empty(),
                        BodyModel::Empty,
                    ),
                },
            ),
    {
        match validate_target(entity_id) {
            Err(error) => {
                return Err(error);
            },
            Ok(()) => {},
        }
        assert(names_of(["collections", entity_id]@) =~= names_of(["collections"]@).push(
            entity_id@,
        ));
        make_request(
            profile,
            HttpMethod::Get,
            &["collections", entity_id],
            Vec::new(),
            HttpBody::Empty,
        )
    }

    /// Describes a collection.
    pub fn describe_entity(entity_id: &str, answer: &Json) -> (result: Result<
        EntityDescription,
        ConnectorError,
    >)
        ensures
            is_description_result(result, collection_description(entity_id@, answer@)),
    {
        let found = match answer.get("result") {
            None => {
                return Err(protocol("Qdrant response omitted collection result"));
            },
            Some(found) => found,
        };
        let vectors = match find_nested(found, "config", "params") {
            Some(params) => params.get("vectors"),
            None => None,
        };
        let mut metadata = DbRecord::new();
        metadata.insert("status".to_owned(), read_member_value(found, "status"));
        metadata.insert("points_count".to_owned(), read_member_value(found, "points_count"));
        Ok(
            EntityDescription {
                entity: CatalogEntity {
                    id: entity_id.to_owned(),
                    namespace: Some("collection".to_owned()),
                    name: entity_id.to_owned(),
                    kind: "collection".to_owned(),
                    comment: None,
                },
                fields: read_vector_fields(vectors),
                metadata,
                truncated: false,
                warnings: Vec::new(),
            },
        )
    }

    /// Makes the request of an operation.
    pub fn begin_operation(
        context: &ConnectorContext,
        profile: &ConnectionProfile,
        operation: &DataOperation,
    ) -> (result: Result<QdrantCall, ConnectorError>)
        ensures
            is_call_result(result, operation_call(*context, *profile, *operation)),
    {
        match operation {
            DataOperation::Read(request) => begin_read(context, profile, request),
            DataOperation::Search(request) => begin_search(context, profile, request),
            DataOperation::VectorSearch(request) => begin_vector_search(context, profile, request),
            DataOperation::VectorUpsert(request) => begin_upsert(profile, request),
            DataOperation::Delete(request) => begin_delete(profile, request),
            DataOperation::NativeQuery(request) => begin_native(profile, request),
            _ => Err(unsupported("operation is not supported by Qdrant REST")),
        }
    }
}

/// The connector takes up no operation that its manifest does not name, and in particular no
/// native write.
pub proof fn lemma_only_named_operations_start(
    context: ConnectorContext,
    profile: ConnectionProfile,
    operation: DataOperation,
)
    ensures
        operation_call(context, profile, operation) is Ok ==> covers(
            qdrant_capabilities(),
            operation,
        ),
        !qdrant_capabilities().contains(Capability::NativeExecute),
{
    let list = qdrant_capabilities();
    assert(list[0] == Capability::TestConnection);
    assert(list[1] == Capability::Discover);
    assert(list[2] == Capability::Describe);
    assert(list[3] == Capability::Read);
    assert(list[4] == Capability::Upsert);
    assert(list[5] == Capability::Delete);
    assert(list[6] == Capability::Batch);
    assert(list[7] == Capability::NativeQuery);
    assert(list[8] == Capability::VectorSearch);
}

/// Following the cursor of a read goes on with the first point that the read left out, where the
/// server returned no more points than it was asked for.
pub proof fn lemma_reads_follow_each_other(
    context: ConnectorContext,
    profile: ConnectionProfile,
    answer: JsonModel,
    sizes: Seq<u64>,
    elapsed_ms: u64,
)
    requires
        scroll_points(answer) matches Ok(points) ==> {
            &&& sizes.len() == points.len()
            &&& points.len() <= context.max_rows
            &&& points.len() <= profile.policy.max_rows
        },
    ensures
        scroll_outcome(context, profile, answer, sizes, elapsed_ms) matches Ok(result) ==> {
            let points = scroll_points(answer)->Ok_0;
            let kept = result.records.len() as int;
            &&& kept <= points.len()
            &&& result.records == point_records(points).subrange(0, kept)
            &&& kept < points.len() ==> {
                &&& result.truncated
                &&& result.next_cursor matches Some(cursor)
                &&& member(points[kept], "id"@) matches Some(id)
                &&& cursor_text(id) == Ok::<Seq<char>, ErrorModel>(cursor)
            }
        },
{
    match scroll_points(answer) {
        Ok(points) => {
            lemma_prefix_is_kept(context, profile, point_records(points), sizes, sizes.len());
        },
        Err(_) => {},
    }
}

} // verus!
