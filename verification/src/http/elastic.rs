//! Elasticsearch and OpenSearch.
use crate::budget::{count_fitting, kept_count, smaller};
use crate::convert::{entries_json, record_json, record_to_json, record_to_members};
use crate::http::auth::{client_plan, client_result, AuthStyle, ClientPlan, PlanModel};
use crate::http::common::{
    affected_error, by_name, byte_limit, cursor_result, effective_bytes, effective_rows,
    ensure_language, extract_ids, filter_ids, find_nested, finish_result, finished, generic_records,
    is_entities_result, is_one_of, is_records_result, language_error, lemma_prefix_is_kept,
    mismatch, mismatch_error, nested, parameters_error, parse_cursor_offset, profile_error,
    records_from_generic_json, rows_result, skip_entities, skipped, sort_by_name, target_error,
    validate_affected, validate_native_parameters, validate_profile, validate_target, Finish,
};
use crate::http::elastic_query::{
    apply_search_options, bulk_result, cursor_text, elastic_filter, elastic_hit_record,
    encode_cursor, filter_query, hit_record, lines_text, read_bulk, with_options, write_lines,
};
use crate::http::native::{
    any_of, envelope_document, envelope_result, native_request, native_result,
    parse_native_envelope, path_segments, segments_of, some_is_one_of, EnvelopeModel,
};
use crate::http::transport::{
    api_url, group_pairs, is_request_result, json_request, plain_request, request, request_json,
    request_timeout, request_timeout_ms, segments_result, BodyModel, HttpBody, HttpMethod,
    HttpRequest, MethodModel, RequestModel,
};
use crate::json::{
    as_bool, as_items, as_members, as_text, bool_of, copy_members, copy_without, find, items_of,
    lemma_named_is_member, member, members_of, number, single, text, text_documents, text_of,
    texts_to_json, with_member, without_member, wrap, JsonObject,
};
use crate::model::{
    appended, covers, entities, error_of, failing, failure, first_error, invalid,
    is_description_result, is_info_result, is_result_of, protocol, protocol_failure, unsupported,
    unsupported_request, AuthKind, Capability, CatalogEntity, CatalogQuery, ConnectionInfo,
    ConnectionProfile, ConnectorContext, ConnectorError, ConnectorManifest, ConnectorStatus,
    DataOperation, DeleteRequest, DescriptionModel, EntityDescription, EntityModel, ErrorCategory,
    ErrorModel, InfoModel, InsertRequest, NativeRequest, OperationResult, Product, QueryOptions,
    ReadRequest, ResultModel, SearchRequest, SecretMaterial, UpdateRequest, WriteOutcome,
};
use crate::text::{
    borrowed, contains_text, decimal, lower, names_of, occurs_in, optional_str, optional_text,
    owned_optional, same, texts, to_lower,
};
use crate::value::{
    documents, members, named, records, with_entry, DbRecord, DbValue, Json, JsonModel, RecordModel,
    ValueModel,
};
use vstd::prelude::*;
use vstd::utf8::encode_utf8;

verus! {

broadcast use {
    crate::text::group_texts,
    crate::value::group_models,
    crate::model::group_entities,
    group_pairs,
};

/// The two products that share this protocol.
#[derive(Debug, Clone, Copy, PartialEq, Eq, Structural)]
pub enum ElasticFlavor {
    Elasticsearch,
    OpenSearch,
}

/// The API mode of a product.
pub open spec fn flavor_mode(flavor: ElasticFlavor) -> Seq<char> {
    match flavor {
        ElasticFlavor::Elasticsearch => "elasticsearch_rest"@,
        ElasticFlavor::OpenSearch => "opensearch_rest"@,
    }
}

/// The name of a product.
pub open spec fn flavor_title(flavor: ElasticFlavor) -> Seq<char> {
    match flavor {
        ElasticFlavor::Elasticsearch => "Elasticsearch"@,
        ElasticFlavor::OpenSearch => "OpenSearch"@,
    }
}

/// The product of a flavor.
pub open spec fn flavor_product(flavor: ElasticFlavor) -> Product {
    match flavor {
        ElasticFlavor::Elasticsearch => Product::Elasticsearch,
        ElasticFlavor::OpenSearch => Product::OpenSearch,
    }
}

/// The languages of native requests.
pub open spec fn flavor_languages(flavor: ElasticFlavor) -> Seq<Seq<char>> {
    match flavor {
        ElasticFlavor::Elasticsearch => names_of(
            ["elasticsearch_http", "elasticsearch_dsl", "json"]@,
        ),
        ElasticFlavor::OpenSearch => names_of(["opensearch_http", "opensearch_dsl", "json"]@),
    }
}

impl ElasticFlavor {
    /// The product.
    pub fn product(self) -> (result: Product)
        ensures
            result == flavor_product(self),
    {
        match self {
            ElasticFlavor::Elasticsearch => Product::Elasticsearch,
            ElasticFlavor::OpenSearch => Product::OpenSearch,
        }
    }

    /// The API mode.
    pub fn api_mode(self) -> (result: &'static str)
        ensures
            result@ == flavor_mode(self),
    {
        match self {
            ElasticFlavor::Elasticsearch => "elasticsearch_rest",
            ElasticFlavor::OpenSearch => "opensearch_rest",
        }
    }

    /// The name of the product.
    pub fn name(self) -> (result: &'static str)
        ensures
            result@ == flavor_title(self),
    {
        match self {
            ElasticFlavor::Elasticsearch => "Elasticsearch",
            ElasticFlavor::OpenSearch => "OpenSearch",
        }
    }

    /// The languages of native requests.
    pub fn native_languages(self) -> (result: [&'static str; 3])
        ensures
            names_of(result@) == flavor_languages(self),
    {
        match self {
            ElasticFlavor::Elasticsearch => ["elasticsearch_http", "elasticsearch_dsl", "json"],
            ElasticFlavor::OpenSearch => ["opensearch_http", "opensearch_dsl", "json"],
        }
    }
}

/// A connector for one of the two products.
#[derive(Debug, Clone, Copy)]
pub struct ElasticAdapter {
    pub flavor: ElasticFlavor,
}

/// What the connectors can do.
pub open spec fn elastic_capabilities() -> Seq<Capability> {
    seq![Capability::TestConnection].push(Capability::Discover).push(Capability::Describe).push(
        Capability::Read,
    ).push(Capability::Insert).push(Capability::Update).push(Capability::Delete).push(
        Capability::Batch,
    ).push(Capability::NativeQuery).push(Capability::TextSearch)
}

/// The credentials that a product takes.
pub open spec fn flavor_auth_kinds(flavor: ElasticFlavor) -> Seq<AuthKind> {
    match flavor {
        ElasticFlavor::Elasticsearch => seq![AuthKind::Anonymous].push(
            AuthKind::UsernamePassword,
        ).push(AuthKind::ApiKey).push(AuthKind::BearerToken).push(AuthKind::ClientCertificate),
        ElasticFlavor::OpenSearch => seq![AuthKind::Anonymous].push(
            AuthKind::UsernamePassword,
        ).push(AuthKind::BearerToken).push(AuthKind::ClientCertificate),
    }
}

/// A text, or the empty one.
pub open spec fn text_or_empty(text: Option<Seq<char>>) -> Seq<char> {
    match text {
        Some(text) => text,
        None => Seq::empty(),
    }
}

/// Whether a server says that it is OpenSearch.
pub open spec fn says_opensearch(answer: JsonModel) -> bool {
    ||| text_of(nested(answer, "version"@, "distribution"@)) == Some("opensearch"@)
    ||| occurs_in("opensearch"@, lower(text_or_empty(text_of(member(answer, "tagline"@)))))
}

/// Whether a server says that it is Elasticsearch.
pub open spec fn says_elasticsearch(answer: JsonModel) -> bool {
    occurs_in("you know, for search"@, lower(text_or_empty(text_of(member(answer, "tagline"@)))))
}

/// The error of a server that is not the expected product.
pub open spec fn product_error(flavor: ElasticFlavor, answer: JsonModel) -> Option<ErrorModel> {
    if flavor == ElasticFlavor::Elasticsearch && says_opensearch(answer) {
        Some(mismatch("the endpoint identifies itself as OpenSearch, not Elasticsearch"@))
    } else if flavor == ElasticFlavor::Elasticsearch && !says_elasticsearch(answer) {
        Some(mismatch("the endpoint does not identify itself as Elasticsearch"@))
    } else if flavor == ElasticFlavor::OpenSearch && !says_opensearch(answer) {
        Some(mismatch("the endpoint does not identify itself as OpenSearch"@))
    } else if text_of(nested(answer, "version"@, "number"@)) is None {
        Some(mismatch("search endpoint did not return a product version"@))
    } else {
        None
    }
}

/// What a server says of itself.
pub open spec fn elastic_info(flavor: ElasticFlavor, answer: JsonModel) -> Result<
    InfoModel,
    ErrorModel,
> {
    match product_error(flavor, answer) {
        Some(error) => Err(error),
        None => Ok(
            InfoModel {
                product_name: flavor_title(flavor),
                product_version: text_of(nested(answer, "version"@, "number"@)),
                api_mode: flavor_mode(flavor),
                server_identity: text_of(member(answer, "name"@)),
                warnings: Seq::empty(),
            },
        ),
    }
}

/// The entity of an index.
pub open spec fn index_entity(name: Seq<char>, comment: Option<Seq<char>>) -> EntityModel {
    EntityModel { id: name, namespace: Some("index"@), name, kind: "index"@, comment }
}

/// The entity of a row of the index catalog, where its name holds the pattern.
pub open spec fn index_of_row(row: JsonModel, pattern: Option<Seq<char>>) -> Option<EntityModel> {
    match text_of(member(row, "index"@)) {
        None => None,
        Some(name) => if pattern matches Some(pattern) && !occurs_in(pattern, name) {
            None
        } else {
            Some(
                index_entity(
                    name,
                    Some(
                        "documents="@ + (match text_of(member(row, "docs.count"@)) {
                            Some(count) => count,
                            None => "unknown"@,
                        }),
                    ),
                ),
            )
        },
    }
}

/// The entities of the rows of the index catalog.
pub open spec fn indexes_of_rows(rows: Seq<JsonModel>, pattern: Option<Seq<char>>) -> Seq<
    EntityModel,
>
    decreases rows.len(),
{
    if rows.len() == 0 {
        Seq::empty()
    } else {
        let before = indexes_of_rows(rows.drop_last(), pattern);
        match index_of_row(rows.last(), pattern) {
            Some(entity) => before.push(entity),
            None => before,
        }
    }
}

/// The entities that a catalog query found, in the order of their names, from its cursor on.
pub open spec fn found_indexes(
    answer: JsonModel,
    pattern: Option<Seq<char>>,
    cursor: Option<Seq<char>>,
) -> Result<Seq<EntityModel>, ErrorModel> {
    match answer {
        JsonModel::Array(rows) => match cursor_result(cursor) {
            Err(error) => Err(error),
            Ok(offset) => Ok(skipped(by_name(indexes_of_rows(rows, pattern)), offset)),
        },
        _ => Err(protocol_failure("index catalog was not an array"@)),
    }
}

/// The entity of a row of the index catalog.
fn read_index(row: &Json, pattern: Option<&str>) -> (result: Option<CatalogEntity>)
    ensures
        match (result, index_of_row(row@, optional_str(pattern))) {
            (Some(entity), Some(wanted)) => entity@ == wanted,
            (None, None) => true,
            _ => false,
        },
{
    let name = match as_text(row.get("index")) {
        None => {
            return None;
        },
        Some(name) => name,
    };
    match pattern {
        Some(pattern) => {
            if !contains_text(name, pattern) {
                return None;
            }
        },
        None => {},
    }
    let count = match as_text(row.get("docs.count")) {
        Some(count) => count,
        None => "unknown",
    };
    Some(
        CatalogEntity {
            id: name.to_owned(),
            namespace: Some("index".to_owned()),
            name: name.to_owned(),
            kind: "index".to_owned(),
            comment: Some(appended("documents=", count)),
        },
    )
}

/// The path of a field within the fields that hold it.
pub open spec fn field_path(prefix: Seq<char>, name: Seq<char>) -> Seq<char> {
    if prefix.len() == 0 {
        name
    } else {
        prefix + "."@ + name
    }
}

/// What a mapping says of a field.
pub open spec fn mapping_field(path: Seq<char>, definition: JsonModel) -> RecordModel {
    let field = with_entry(Seq::empty(), "name"@, ValueModel::String(path));
    let typed = match text_of(member(definition, "type"@)) {
        Some(kind) => with_entry(field, "type"@, ValueModel::String(kind)),
        None => if member(definition, "properties"@) is Some {
            with_entry(field, "type"@, ValueModel::String("object"@))
        } else {
            field
        },
    };
    match bool_of(member(definition, "index"@)) {
        Some(indexed) => with_entry(typed, "indexed"@, ValueModel::Bool(indexed)),
        None => typed,
    }
}

/// The fields of a mapping, each followed by those that it holds.
pub open spec fn mapping_fields(list: Seq<(Seq<char>, JsonModel)>, prefix: Seq<char>) -> Seq<
    RecordModel,
>
    decreases list, list.len(),
    via mapping_fields_decreases
{
    if list.len() == 0 {
        Seq::empty()
    } else {
        let before = mapping_fields(list.drop_last(), prefix);
        let (name, definition) = list.last();
        let path = field_path(prefix, name);
        let own = before.push(mapping_field(path, definition));
        match members_of(member(definition, "properties"@)) {
            Some(inner) => own + mapping_fields(inner, path),
            None => own,
        }
    }
}

#[via_fn]
proof fn mapping_fields_decreases(list: Seq<(Seq<char>, JsonModel)>, prefix: Seq<char>) {
    if list.len() > 0 {
        assert(list.drop_last() == list.subrange(0, list.len() - 1));
        assert(decreases_to!(list => list.drop_last()));
        let definition = list.last().1;
        if let Some(inner) = members_of(member(definition, "properties"@)) {
            let outer = definition->Object_0;
            lemma_named_is_member(outer, "properties"@);
            let i = choose|i: int|
                0 <= i < outer.len() && (#[trigger] outer[i]).1 == JsonModel::Object(inner);
            assert(decreases_to!(outer => outer[i]));
            assert(decreases_to!(outer[i] => outer[i].1));
            assert(decreases_to!(list => list[list.len() - 1]));
            assert(decreases_to!(list[list.len() - 1] => definition));
        }
    }
}

/// What a mapping says of a field.
fn read_mapping_field(path: &str, definition: &Json) -> (result: DbRecord)
    ensures
        result@ == mapping_field(path@, definition@),
{
    let mut field = DbRecord::new();
    field.insert("name".to_owned(), DbValue::String(path.to_owned()));
    match as_text(definition.get("type")) {
        Some(kind) => {
            field.insert("type".to_owned(), DbValue::String(kind.to_owned()));
        },
        None => {
            if definition.get("properties").is_some() {
                field.insert("type".to_owned(), DbValue::String("object".to_owned()));
            }
        },
    }
    match as_bool(definition.get("index")) {
        Some(indexed) => {
            field.insert("indexed".to_owned(), DbValue::Bool(indexed));
        },
        None => {},
    }
    field
}

/// Adds the fields of a mapping, each followed by those that it holds.
pub fn collect_mapping_fields(
    properties: &Vec<(String, Json)>,
    prefix: &str,
    output: &mut Vec<DbRecord>,
)
    ensures
        records(final(output)@) == records(old(output)@) + mapping_fields(
            members(properties@),
            prefix@,
        ),
    decreases properties,
{
    let ghost all = members(properties@);
    let ghost before = records(output@);
    let mut i: usize = 0;
    assert(all.subrange(0, 0) =~= Seq::<(Seq<char>, JsonModel)>::empty());
    assert(before + Seq::<RecordModel>::empty() =~= before);
    while i < properties.len()
        invariant
            i <= properties@.len(),
            all == members(properties@),
            records(output@) == before + mapping_fields(all.subrange(0, i as int), prefix@),
        decreases properties@.len() - i,
    {
        let ghost next = all.subrange(0, i + 1);
        assert(next.drop_last() =~= all.subrange(0, i as int));
        let property = &properties[i];
        assert(next.last() == (property.0@, property.1@));
        assert(decreases_to!(properties => *property));
        let path = if prefix.is_empty() {
            property.0.clone()
        } else {
            let start = appended(prefix, ".");
            appended(start.as_str(), property.0.as_str())
        };
        assert(path@ == field_path(prefix@, property.0@));
        let ghost shown = records(output@);
        output.push(read_mapping_field(path.as_str(), &property.1));
        let ghost own = mapping_fields(next.drop_last(), prefix@).push(
            mapping_field(path@, property.1@),
        );
        assert(records(output@) =~= before + own);
        match &property.1 {
            Json::Object(definition) => {
                assert(decreases_to!(property => *definition));
                match crate::json::find_index(definition, "properties") {
                    Some(at) => {
                        let inner = &definition[at];
                        assert(decreases_to!(definition => *inner));
                        match &inner.1 {
                            Json::Object(nested) => {
                                assert(decreases_to!(properties => *nested));
                                collect_mapping_fields(nested, path.as_str(), output);
                                assert(records(output@) =~= before + (own + mapping_fields(
                                    members(nested@),
                                    path@,
                                )));
                            },
                            _ => {},
                        }
                    },
                    None => {},
                }
            },
            _ => {},
        }
        i = i + 1;
    }
    assert(all.subrange(0, i as int) =~= all);
}

/// The mapping of an index: the one under its name, or else the first.
pub open spec fn index_mapping(answer: JsonModel, name: Seq<char>) -> Option<JsonModel> {
    match member(answer, name) {
        Some(mapping) => Some(mapping),
        None => match answer {
            JsonModel::Object(list) if list.len() > 0 => Some(list[0].1),
            _ => None,
        },
    }
}

/// The fields of the mapping of an index.
pub open spec fn mapped_properties(mapping: JsonModel) -> Option<Seq<(Seq<char>, JsonModel)>> {
    members_of(nested(mapping, "mappings"@, "properties"@))
}

/// What a mapping says of an index.
pub open spec fn index_description(flavor: ElasticFlavor, name: Seq<char>, answer: JsonModel) -> Result<
    DescriptionModel,
    ErrorModel,
> {
    match index_mapping(answer, name) {
        None => Err(protocol_failure("mapping response did not contain the index"@)),
        Some(mapping) => {
            let properties = match mapped_properties(mapping) {
                Some(properties) => properties,
                None => Seq::empty(),
            };
            Ok(
                DescriptionModel {
                    entity: index_entity(name, None),
                    fields: mapping_fields(properties, Seq::empty()),
                    metadata: with_entry(
                        with_entry(
                            Seq::empty(),
                            "product"@,
                            ValueModel::String(flavor_title(flavor)),
                        ),
                        "field_count"@,
                        ValueModel::UInt64(properties.len() as u64),
                    ),
                    truncated: false,
                    warnings: Seq::empty(),
                },
            )
        },
    }
}

/// The segments under which a cluster or its data is changed.
pub open spec fn changing_segments() -> Seq<Seq<char>> {
    names_of(
        [
            "_security",
            "_snapshot",
            "_tasks",
            "_cluster",
            "_update_by_query",
            "_delete_by_query",
            "_bulk",
            "_doc",
        ]@,
    )
}

/// Whether a native request is a search or asks for what is known of indexes.
pub open spec fn is_native_search(method: MethodModel, path: Seq<char>) -> bool {
    let segments = path_segments(path);
    let count = segments.len() as int;
    &&& !any_of(segments, changing_segments())
    &&& match method {
        MethodModel::Get | MethodModel::Head => any_of(
            segments,
            names_of(["_search", "_count", "_field_caps", "_mapping", "_resolve", "_cat"]@),
        ),
        MethodModel::Post => {
            ||| count > 0 && names_of(["_search", "_count", "_field_caps"]@).contains(
                segments[count - 1],
            )
            ||| count > 1 && segments[count - 2] == "_search"@ && segments[count - 1]
                == "template"@
        },
        _ => false,
    }
}

/// Whether a native request is a search or asks for what is known of indexes.
pub fn native_search_path_allowed(method: &HttpMethod, path: &str) -> (result: bool)
    ensures
        result == is_native_search(method@, path@),
{
    let segments = segments_of(path);
    let ghost all = texts(segments@);
    if some_is_one_of(
        &segments,
        &[
            "_security",
            "_snapshot",
            "_tasks",
            "_cluster",
            "_update_by_query",
            "_delete_by_query",
            "_bulk",
            "_doc",
        ],
    ) {
        return false;
    }
    match method {
        HttpMethod::Get | HttpMethod::Head => some_is_one_of(
            &segments,
            &["_search", "_count", "_field_caps", "_mapping", "_resolve", "_cat"],
        ),
        HttpMethod::Post => {
            let count: usize = segments.len();
            if count == 0 {
                return false;
            }
            assert(all[count - 1] == segments@[count - 1]@);
            let last = segments[count - 1].as_str();
            if is_one_of(last, &["_search", "_count", "_field_caps"]) {
                return true;
            }
            if count == 1 {
                return false;
            }
            assert(all[count - 2] == segments@[count - 2]@);
            same(segments[count - 2].as_str(), "_search") && same(last, "template")
        },
        _ => false,
    }
}

/// A native search never reaches what changes a cluster or its data.
pub proof fn lemma_native_searches_change_nothing(method: MethodModel, path: Seq<char>)
    requires
        is_native_search(method, path),
    ensures
        method is Get || method is Head || method is Post,
        forall|i: int|
            0 <= i < path_segments(path).len() ==> !changing_segments().contains(
                #[trigger] path_segments(path)[i],
            ),
{
}

/// How the answer to a request is read.
#[derive(Debug, Clone, Copy, PartialEq, Eq, Structural)]
pub enum ElasticReading {
    /// A search for at most `limit` hits; `resumable` where it is sorted.
    Search { limit: usize, resumable: bool },
    Bulk,
    Native,
}

/// A request, and how its answer is read.
#[derive(Debug)]
pub struct ElasticCall {
    pub request: HttpRequest,
    pub reading: ElasticReading,
}

/// Whether a request is what is expected of it.
pub open spec fn is_call_result(
    result: Result<ElasticCall, ConnectorError>,
    expected: Result<(RequestModel, ElasticReading), ErrorModel>,
) -> bool {
    match (result, expected) {
        (Ok(call), Ok((wanted, reading))) => call.request@ == wanted && call.reading == reading,
        (Err(error), Err(wanted)) => error@ == wanted,
        _ => false,
    }
}

/// The request of a search.
pub open spec fn search_call(
    profile: ConnectionProfile,
    target: Seq<char>,
    body: Seq<(Seq<char>, JsonModel)>,
    options: QueryOptions,
    limit: int,
    remaining_ms: u64,
) -> Result<(RequestModel, ElasticReading), ErrorModel> {
    match with_options(body, options) {
        Err(error) => Err(error),
        Ok(body) => match segments_result(
            profile.endpoint@,
            names_of([]@).push(target).push("_search"@),
        ) {
            Err(error) => Err(error),
            Ok(url) => Ok(
                (
                    RequestModel {
                        timeout_ms: Some(
                            request_timeout(
                                remaining_ms,
                                profile.policy.timeout_ms,
                                options.timeout_ms,
                            ) as u64,
                        ),
                        ..json_request(MethodModel::Post, url, JsonModel::Object(body))
                    },
                    ElasticReading::Search {
                        limit: limit as usize,
                        resumable: named(body, "sort"@) is Some,
                    },
                ),
            ),
        },
    }
}

/// The number of hits to ask for: one more than are shown.
pub open spec fn size_document(limit: int) -> JsonModel {
    JsonModel::Number(decimal((limit + 1) as nat))
}

/// The request of a read.
pub open spec fn read_call(
    context: ConnectorContext,
    profile: ConnectionProfile,
    request: ReadRequest,
    remaining_ms: u64,
) -> Result<(RequestModel, ElasticReading), ErrorModel> {
    match target_error(request.target@) {
        Some(error) => Err(error),
        None => match rows_result(context, profile, request.options.limit) {
            Err(error) => Err(error),
            Ok(limit) => {
                let query = match request.filter {
                    Some(filter) => filter_query(filter),
                    None => Ok(single("match_all"@, JsonModel::Object(Seq::empty()))),
                };
                match query {
                    Err(error) => Err(error),
                    Ok(query) => {
                        let body = Seq::empty().push(("query"@, query)).push(
                            ("size"@, size_document(limit)),
                        );
                        let body = if request.fields@.len() == 0 {
                            body
                        } else {
                            body.push(
                                (
                                    "_source"@,
                                    JsonModel::Array(text_documents(texts(request.fields@))),
                                ),
                            )
                        };
                        search_call(
                            profile,
                            request.target@,
                            body,
                            request.options,
                            limit,
                            remaining_ms,
                        )
                    },
                }
            },
        },
    }
}

/// The request of a search in the product's own form: a whole body, or just its query.
pub open spec fn text_search_call(
    context: ConnectorContext,
    profile: ConnectionProfile,
    request: SearchRequest,
    remaining_ms: u64,
) -> Result<(RequestModel, ElasticReading), ErrorModel> {
    match target_error(request.target@) {
        Some(error) => Err(error),
        None => match rows_result(context, profile, request.options.limit) {
            Err(error) => Err(error),
            Ok(limit) => {
                let body = match request.query@ {
                    JsonModel::Object(list) if named(list, "query"@) is Some => list,
                    query => Seq::empty().push(("query"@, query)),
                };
                search_call(
                    profile,
                    request.target@,
                    with_member(body, "size"@, size_document(limit)),
                    request.options,
                    limit,
                    remaining_ms,
                )
            },
        },
    }
}

/// Makes the request of a search.
fn make_search(
    profile: &ConnectionProfile,
    target: &str,
    body: JsonObject,
    options: &QueryOptions,
    limit: usize,
    remaining_ms: u64,
) -> (result: Result<ElasticCall, ConnectorError>)
    ensures
        is_call_result(
            result,
            search_call(*profile, target@, body@, *options, limit as int, remaining_ms),
        ),
{
    let body = match apply_search_options(body, options) {
        Err(error) => {
            return Err(error);
        },
        Ok(body) => body,
    };
    let resumable = find(&body.members, "sort").is_some();
    assert(names_of([target, "_search"]@) =~= names_of([]@).push(
        target@,
    ).push("_search"@));
    let url = match api_url(profile, &[target, "_search"]) {
        Err(error) => {
            return Err(error);
        },
        Ok(url) => url,
    };
    let timeout: u64 = request_timeout_ms(remaining_ms, profile, options.timeout_ms);
    let mut request = request_json(HttpMethod::Post, url, body.finish());
    request.timeout_ms = Some(timeout);
    Ok(ElasticCall { request, reading: ElasticReading::Search { limit, resumable } })
}

/// Makes the request of a read.
pub fn begin_read(
    context: &ConnectorContext,
    profile: &ConnectionProfile,
    request: &ReadRequest,
    remaining_ms: u64,
) -> (result: Result<ElasticCall, ConnectorError>)
    ensures
        is_call_result(result, read_call(*context, *profile, *request, remaining_ms)),
{
    match validate_target(request.target.as_str()) {
        Err(error) => {
            return Err(error);
        },
        Ok(()) => {},
    }
    let limit: usize = match effective_rows(context, profile, request.options.limit) {
        Err(error) => {
            return Err(error);
        },
        Ok(limit) => limit,
    };
    let query = match &request.filter {
        Some(filter) => match elastic_filter(filter) {
            Err(error) => {
                return Err(error);
            },
            Ok(query) => query,
        },
        None => wrap("match_all", JsonObject::new().finish()),
    };
    let mut body = JsonObject::new();
    body.put("query", query);
    body.put("size", number(limit as u64 + 1));
    if request.fields.len() > 0 {
        body.put("_source", Json::Array(texts_to_json(&request.fields)));
    }
    make_search(
        profile,
        request.target.as_str(),
        body,
        &request.options,
        limit,
        remaining_ms,
    )
}

/// Makes the request of a search in the product's own form.
pub fn begin_search(
    context: &ConnectorContext,
    profile: &ConnectionProfile,
    request: &SearchRequest,
    remaining_ms: u64,
) -> (result: Result<ElasticCall, ConnectorError>)
    ensures
        is_call_result(result, text_search_call(*context, *profile, *request, remaining_ms)),
{
    match validate_target(request.target.as_str()) {
        Err(error) => {
            return Err(error);
        },
        Ok(()) => {},
    }
    let limit: usize = match effective_rows(context, profile, request.options.limit) {
        Err(error) => {
            return Err(error);
        },
        Ok(limit) => limit,
    };
    let whole = request.query.get("query").is_some();
    let mut body = JsonObject::new();
    match &request.query {
        Json::Object(list) => {
            if whole {
                body = JsonObject { members: copy_members(list) };
            } else {
                body.put("query", request.query.copy());
            }
        },
        _ => {
            body.put("query", request.query.copy());
        },
    }
    body.set("size", number(limit as u64 + 1));
    make_search(
        profile,
        request.target.as_str(),
        body,
        &request.options,
        limit,
        remaining_ms,
    )
}

/// The lines of a bulk request that creates a record: what is created, and the record. An
/// identity moves from the record to what is created.
pub open spec fn create_lines(target: Seq<char>, record: RecordModel) -> Result<
    Seq<JsonModel>,
    ErrorModel,
> {
    match entries_json(record) {
        Err(error) => Err(error),
        Ok(list) => {
            let index = Seq::empty().push(("_index"@, JsonModel::Text(target)));
            let created = match named(list, "_id"@) {
                Some(id) => index.push(("_id"@, id)),
                None => index,
            };
            Ok(
                Seq::empty().push(single("create"@, JsonModel::Object(created))).push(
                    JsonModel::Object(without_member(list, "_id"@)),
                ),
            )
        },
    }
}

/// The lines of a bulk request that creates records.
pub open spec fn insert_lines(target: Seq<char>, list: Seq<RecordModel>) -> Result<
    Seq<JsonModel>,
    ErrorModel,
>
    decreases list.len(),
{
    if list.len() == 0 {
        Ok(Seq::empty())
    } else {
        match insert_lines(target, list.drop_last()) {
            Err(error) => Err(error),
            Ok(before) => match create_lines(target, list.last()) {
                Err(error) => Err(error),
                Ok(lines) => Ok(before + lines),
            },
        }
    }
}

/// The object that names a record of an index.
pub open spec fn record_place(target: Seq<char>, id: Seq<char>) -> JsonModel {
    JsonModel::Object(
        Seq::empty().push(("_index"@, JsonModel::Text(target))).push(("_id"@, JsonModel::Text(id))),
    )
}

/// The lines of a bulk request that changes records.
pub open spec fn update_lines(target: Seq<char>, ids: Seq<Seq<char>>, changes: JsonModel) -> Seq<
    JsonModel,
>
    decreases ids.len(),
{
    if ids.len() == 0 {
        Seq::empty()
    } else {
        update_lines(target, ids.drop_last(), changes).push(
            single("update"@, record_place(target, ids.last())),
        ).push(single("doc"@, changes))
    }
}

/// The lines of a bulk request that removes records.
pub open spec fn delete_lines(target: Seq<char>, ids: Seq<Seq<char>>) -> Seq<JsonModel>
    decreases ids.len(),
{
    if ids.len() == 0 {
        Seq::empty()
    } else {
        delete_lines(target, ids.drop_last()).push(
            single("delete"@, record_place(target, ids.last())),
        )
    }
}

/// The bulk request of some lines.
pub open spec fn bulk_call(
    profile: ConnectionProfile,
    lines: Seq<JsonModel>,
    what: Seq<char>,
) -> Result<(RequestModel, ElasticReading), ErrorModel> {
    match lines_text(lines) {
        None => Err(failure(ErrorCategory::Internal, "failed to encode bulk "@ + what)),
        Some(text) => match segments_result(profile.endpoint@, names_of(["_bulk"]@)) {
            Err(error) => Err(error),
            Ok(url) => Ok(
                (
                    RequestModel {
                        query: Seq::empty().push(("refresh"@, "wait_for"@)),
                        body: BodyModel::Text {
                            content_type: "application/x-ndjson"@,
                            text,
                        },
                        ..plain_request(MethodModel::Post, url)
                    },
                    ElasticReading::Bulk,
                ),
            ),
        },
    }
}

/// The request of an insert.
pub open spec fn insert_call(profile: ConnectionProfile, request: InsertRequest) -> Result<
    (RequestModel, ElasticReading),
    ErrorModel,
> {
    match target_error(request.target@) {
        Some(error) => Err(error),
        None => match affected_error(
            profile,
            profile.policy.max_affected,
            request.records@.len(),
        ) {
            Some(error) => Err(error),
            None => match insert_lines(request.target@, records(request.records@)) {
                Err(error) => Err(error),
                Ok(lines) => bulk_call(profile, lines, "insert"@),
            },
        },
    }
}

/// The request of an update of records that are named by their identities.
pub open spec fn update_call(profile: ConnectionProfile, request: UpdateRequest) -> Result<
    (RequestModel, ElasticReading),
    ErrorModel,
> {
    match target_error(request.target@) {
        Some(error) => Err(error),
        None => match filter_ids(request.filter, names_of(["_id", "id"]@)) {
            Err(error) => Err(error),
            Ok(ids) => match affected_error(profile, request.max_affected, ids.len()) {
                Some(error) => Err(error),
                None => match record_json(request.changes@) {
                    Err(error) => Err(error),
                    Ok(changes) => bulk_call(
                        profile,
                        update_lines(request.target@, ids, changes),
                        "update"@,
                    ),
                },
            },
        },
    }
}

/// The request of a removal of records that are named by their identities.
pub open spec fn delete_call(profile: ConnectionProfile, request: DeleteRequest) -> Result<
    (RequestModel, ElasticReading),
    ErrorModel,
> {
    match target_error(request.target@) {
        Some(error) => Err(error),
        None => match filter_ids(request.filter, names_of(["_id", "id"]@)) {
            Err(error) => Err(error),
            Ok(ids) => match affected_error(profile, request.max_affected, ids.len()) {
                Some(error) => Err(error),
                None => bulk_call(profile, delete_lines(request.target@, ids), "delete"@),
            },
        },
    }
}

/// Makes the bulk request of some lines.
fn make_bulk(profile: &ConnectionProfile, lines: &Vec<Json>, what: &str) -> (result: Result<
    ElasticCall,
    ConnectorError,
>)
    ensures
        is_call_result(result, bulk_call(*profile, documents(lines@), what@)),
{
    let text = match write_lines(lines) {
        None => {
            let message = appended("failed to encode bulk ", what);
            return Err(ConnectorError::new(ErrorCategory::Internal, message.as_str()));
        },
        Some(text) => text,
    };
    let url = match api_url(profile, &["_bulk"]) {
        Err(error) => {
            return Err(error);
        },
        Ok(url) => url,
    };
    let mut request = request(HttpMethod::Post, url);
    request.query.push(("refresh".to_owned(), "wait_for".to_owned()));
    request.body = HttpBody::Text { content_type: "application/x-ndjson".to_owned(), text };
    Ok(ElasticCall { request, reading: ElasticReading::Bulk })
}

/// Where some first records have an error, all of them have that one.
proof fn lemma_insert_lines_fail_early(target: Seq<char>, list: Seq<RecordModel>, count: int)
    requires
        0 <= count <= list.len(),
        insert_lines(target, list.subrange(0, count)) is Err,
    ensures
        insert_lines(target, list) == insert_lines(target, list.subrange(0, count)),
    decreases list.len(),
{
    if count == list.len() {
        assert(list.subrange(0, count) =~= list);
    } else {
        assert(list.drop_last().subrange(0, count) =~= list.subrange(0, count));
        lemma_insert_lines_fail_early(target, list.drop_last(), count);
    }
}

/// Makes the request of an insert.
pub fn begin_insert(profile: &ConnectionProfile, request: &InsertRequest) -> (result: Result<
    ElasticCall,
    ConnectorError,
>)
    ensures
        is_call_result(result, insert_call(*profile, *request)),
{
    match validate_target(request.target.as_str()) {
        Err(error) => {
            return Err(error);
        },
        Ok(()) => {},
    }
    match validate_affected(profile, profile.policy.max_affected, request.records.len()) {
        Err(error) => {
            return Err(error);
        },
        Ok(()) => {},
    }
    let ghost all = records(request.records@);
    let mut lines: Vec<Json> = Vec::new();
    let mut i: usize = 0;
    assert(all.subrange(0, 0) =~= Seq::<RecordModel>::empty());
    while i < request.records.len()
        invariant
            i <= request.records@.len(),
            all == records(request.records@),
            target_error(request.target@) is None,
            affected_error(*profile, profile.policy.max_affected, request.records@.len()) is None,
            insert_lines(request.target@, all.subrange(0, i as int)) == Ok::<
                Seq<JsonModel>,
                ErrorModel,
            >(documents(lines@)),
        decreases request.records@.len() - i,
    {
        let ghost next = all.subrange(0, i + 1);
        assert(next.drop_last() =~= all.subrange(0, i as int));
        let list = match record_to_members(&request.records[i]) {
            Err(error) => {
                proof {
                    lemma_insert_lines_fail_early(request.target@, all, i + 1);
                }
                return Err(error);
            },
            Ok(list) => list,
        };
        let mut created = JsonObject::new();
        created.put("_index", text(request.target.as_str()));
        match find(&list, "_id") {
            Some(id) => {
                created.put("_id", id.copy());
            },
            None => {},
        }
        let ghost before = documents(lines@);
        let ghost added = create_lines(request.target@, all[i as int])->Ok_0;
        lines.push(wrap("create", created.finish()));
        lines.push(Json::Object(copy_without(&list, "_id")));
        assert(documents(lines@) =~= before + added);
        i = i + 1;
    }
    assert(all.subrange(0, i as int) =~= all);
    make_bulk(profile, &lines, "insert")
}

/// The object that names a record of an index.
fn write_place(target: &str, id: &str) -> (result: Json)
    ensures
        result@ == record_place(target@, id@),
{
    let mut place = JsonObject::new();
    place.put("_index", text(target));
    place.put("_id", text(id));
    place.finish()
}

/// Makes the request of an update.
pub fn begin_update(profile: &ConnectionProfile, request: &UpdateRequest) -> (result: Result<
    ElasticCall,
    ConnectorError,
>)
    ensures
        is_call_result(result, update_call(*profile, *request)),
{
    match validate_target(request.target.as_str()) {
        Err(error) => {
            return Err(error);
        },
        Ok(()) => {},
    }
    let ids = match extract_ids(&request.filter, &["_id", "id"]) {
        Err(error) => {
            return Err(error);
        },
        Ok(ids) => ids,
    };
    match validate_affected(profile, request.max_affected, ids.len()) {
        Err(error) => {
            return Err(error);
        },
        Ok(()) => {},
    }
    let changes = match record_to_json(&request.changes) {
        Err(error) => {
            return Err(error);
        },
        Ok(changes) => changes,
    };
    let ghost all = texts(ids@);
    let mut lines: Vec<Json> = Vec::new();
    let mut i: usize = 0;
    assert(all.subrange(0, 0) =~= Seq::<Seq<char>>::empty());
    while i < ids.len()
        invariant
            i <= ids@.len(),
            all == texts(ids@),
            documents(lines@) == update_lines(
                request.target@,
                all.subrange(0, i as int),
                changes@,
            ),
        decreases ids@.len() - i,
    {
        assert(all.subrange(0, i + 1).drop_last() =~= all.subrange(0, i as int));
        lines.push(wrap("update", write_place(request.target.as_str(), ids[i].as_str())));
        lines.push(wrap("doc", changes.copy()));
        i = i + 1;
    }
    assert(all.subrange(0, i as int) =~= all);
    make_bulk(profile, &lines, "update")
}

/// Makes the request of a removal.
pub fn begin_delete(profile: &ConnectionProfile, request: &DeleteRequest) -> (result: Result<
    ElasticCall,
    ConnectorError,
>)
    ensures
        is_call_result(result, delete_call(*profile, *request)),
{
    match validate_target(request.target.as_str()) {
        Err(error) => {
            return Err(error);
        },
        Ok(()) => {},
    }
    let ids = match extract_ids(&request.filter, &["_id", "id"]) {
        Err(error) => {
            return Err(error);
        },
        Ok(ids) => ids,
    };
    match validate_affected(profile, request.max_affected, ids.len()) {
        Err(error) => {
            return Err(error);
        },
        Ok(()) => {},
    }
    let ghost all = texts(ids@);
    let mut lines: Vec<Json> = Vec::new();
    let mut i: usize = 0;
    assert(all.subrange(0, 0) =~= Seq::<Seq<char>>::empty());
    while i < ids.len()
        invariant
            i <= ids@.len(),
            all == texts(ids@),
            documents(lines@) == delete_lines(request.target@, all.subrange(0, i as int)),
        decreases ids@.len() - i,
    {
        assert(all.subrange(0, i + 1).drop_last() =~= all.subrange(0, i as int));
        lines.push(wrap("delete", write_place(request.target.as_str(), ids[i].as_str())));
        i = i + 1;
    }
    assert(all.subrange(0, i as int) =~= all);
    make_bulk(profile, &lines, "delete")
}

/// The native request of a parsed envelope.
pub open spec fn native_search_call(
    profile: ConnectionProfile,
    envelope: Result<EnvelopeModel, ErrorModel>,
) -> Result<(RequestModel, ElasticReading), ErrorModel> {
    match envelope {
        Err(error) => Err(error),
        Ok(envelope) => if !is_native_search(envelope.method, envelope.path) {
            Err(
                failure(
                    ErrorCategory::PermissionDenied,
                    "native search request is not a read-only search or metadata endpoint"@,
                ),
            )
        } else {
            match native_result(profile, envelope) {
                Err(error) => Err(error),
                Ok(request) => Ok((request, ElasticReading::Native)),
            }
        },
    }
}

/// The request of a native query.
pub open spec fn native_call(
    flavor: ElasticFlavor,
    profile: ConnectionProfile,
    request: NativeRequest,
) -> Result<(RequestModel, ElasticReading), ErrorModel> {
    match language_error(request.language@, flavor_languages(flavor)) {
        Some(error) => Err(error),
        None => match parameters_error(request) {
            Some(error) => Err(error),
            None => native_search_call(
                profile,
                envelope_result(
                    envelope_document(encode_utf8(request.statement@)),
                    true,
                    names_of(["/"]@),
                ),
            ),
        },
    }
}

/// Makes the request of a native query.
pub fn begin_native(flavor: ElasticFlavor, profile: &ConnectionProfile, request: &NativeRequest) -> (result:
    Result<ElasticCall, ConnectorError>)
    ensures
        is_call_result(result, native_call(flavor, *profile, *request)),
{
    let languages = flavor.native_languages();
    match ensure_language(request.language.as_str(), &languages) {
        Err(error) => {
            return Err(error);
        },
        Ok(()) => {},
    }
    match validate_native_parameters(request) {
        Err(error) => {
            return Err(error);
        },
        Ok(()) => {},
    }
    let envelope = match parse_native_envelope(request.statement.as_str(), true, &["/"]) {
        Err(error) => {
            return Err(error);
        },
        Ok(envelope) => envelope,
    };
    if !native_search_path_allowed(&envelope.method, envelope.path.as_str()) {
        return Err(
            ConnectorError::new(
                ErrorCategory::PermissionDenied,
                "native search request is not a read-only search or metadata endpoint",
            ),
        );
    }
    match native_request(profile, envelope) {
        Err(error) => Err(error),
        Ok(request) => Ok(ElasticCall { request, reading: ElasticReading::Native }),
    }
}

/// The request of an operation.
pub open spec fn operation_call(
    flavor: ElasticFlavor,
    context: ConnectorContext,
    profile: ConnectionProfile,
    operation: DataOperation,
    remaining_ms: u64,
) -> Result<(RequestModel, ElasticReading), ErrorModel> {
    match operation {
        DataOperation::Read(request) => read_call(context, profile, request, remaining_ms),
        DataOperation::Search(request) => text_search_call(
            context,
            profile,
            request,
            remaining_ms,
        ),
        DataOperation::Insert(request) => insert_call(profile, request),
        DataOperation::Update(request) => update_call(profile, request),
        DataOperation::Delete(request) => delete_call(profile, request),
        DataOperation::NativeQuery(request) => native_call(flavor, profile, request),
        _ => Err(unsupported_request("operation is not supported by this search connector"@)),
    }
}

/// The hits of an answer to a search.
pub open spec fn search_hits(answer: JsonModel) -> Result<Seq<JsonModel>, ErrorModel> {
    match items_of(nested(answer, "hits"@, "hits"@)) {
        None => Err(protocol_failure("search response did not contain hits.hits"@)),
        Some(hits) => Ok(hits),
    }
}

/// The records of hits.
pub open spec fn hit_records(hits: Seq<JsonModel>) -> Seq<RecordModel> {
    Seq::new(hits.len(), |i: int| hit_record(hits[i]))
}

/// The records of an answer, before the limit of bytes is applied.
pub open spec fn answer_records(reading: ElasticReading, answer: JsonModel) -> Result<
    Seq<RecordModel>,
    ErrorModel,
> {
    match reading {
        ElasticReading::Search { limit, .. } => match search_hits(answer) {
            Err(error) => Err(error),
            Ok(hits) => Ok(
                hit_records(hits.subrange(0, smaller(hits.len() as int, limit as int))),
            ),
        },
        ElasticReading::Bulk => match bulk_result(answer) {
            Err(error) => Err(error),
            Ok(_) => Ok(Seq::empty()),
        },
        ElasticReading::Native => Ok(generic_records(answer)),
    }
}

/// Reads the records of an answer, before the limit of bytes is applied.
pub fn read_records(reading: ElasticReading, answer: &Json) -> (result: Result<
    Vec<DbRecord>,
    ConnectorError,
>)
    ensures
        is_records_result(result, answer_records(reading, answer@)),
{
    match reading {
        ElasticReading::Search { limit, .. } => {
            let hits = match as_items(find_nested(answer, "hits", "hits")) {
                None => {
                    return Err(protocol("search response did not contain hits.hits"));
                },
                Some(hits) => hits,
            };
            let ghost all = documents(hits@);
            let count: usize = if hits.len() <= limit {
                hits.len()
            } else {
                limit
            };
            let mut found: Vec<DbRecord> = Vec::new();
            let mut i: usize = 0;
            while i < count
                invariant
                    i <= count <= hits@.len(),
                    all == documents(hits@),
                    found@.len() == i,
                    forall|j: int| 0 <= j < i ==> (#[trigger] found@[j])@ == hit_record(all[j]),
                decreases count - i,
            {
                assert(all[i as int] == hits@[i as int]@);
                found.push(elastic_hit_record(&hits[i]));
                i = i + 1;
            }
            assert(records(found@) =~= hit_records(all.subrange(0, count as int)));
            Ok(found)
        },
        ElasticReading::Bulk => match read_bulk(answer) {
            Err(error) => Err(error),
            Ok(_) => Ok(Vec::new()),
        },
        ElasticReading::Native => Ok(records_from_generic_json(answer)),
    }
}

/// The cursor behind the first `kept` hits of a sorted search.
pub open spec fn next_place(hits: Seq<JsonModel>, kept: int) -> Result<Seq<char>, ErrorModel> {
    match member(hits[kept - 1], "sort"@) {
        None => Err(
            protocol_failure("sorted search response did not contain sort values"@),
        ),
        Some(sort) => cursor_text(sort),
    }
}

/// The result of a search whose hits, up to the limit, have the given encoded sizes: those that
/// fit, and a cursor behind them where there are more and the search is sorted.
pub open spec fn search_outcome(
    context: ConnectorContext,
    profile: ConnectionProfile,
    hits: Seq<JsonModel>,
    limit: usize,
    resumable: bool,
    sizes: Seq<u64>,
    elapsed_ms: u64,
) -> Result<ResultModel, ErrorModel> {
    let shown = hits.subrange(0, smaller(hits.len() as int, limit as int));
    let kept = kept_count(sizes, limit as nat, byte_limit(context, profile));
    let truncated = hits.len() > limit || kept < shown.len();
    if shown.len() > 0 && kept == 0 {
        Err(
            crate::model::invalid_request(
                "the first search hit exceeds the configured max_bytes limit"@,
            ),
        )
    } else {
        let cursor = if truncated && resumable {
            match next_place(hits, kept as int) {
                Err(error) => Err(error),
                Ok(cursor) => Ok(Some(cursor)),
            }
        } else {
            Ok(None)
        };
        match cursor {
            Err(error) => Err(error),
            Ok(cursor) => match finished(
                context,
                profile,
                hit_records(shown).subrange(0, kept as int),
                sizes.subrange(0, kept as int),
                cursor,
                0,
                WriteOutcome::NotApplicable,
                elapsed_ms,
            ) {
                Err(error) => Err(error),
                Ok(result) => Ok(
                    ResultModel { truncated: result.truncated || truncated, ..result },
                ),
            },
        }
    }
}

/// The result of an operation whose answer holds records of the given encoded sizes.
pub open spec fn operation_outcome(
    context: ConnectorContext,
    profile: ConnectionProfile,
    reading: ElasticReading,
    answer: JsonModel,
    sizes: Seq<u64>,
    elapsed_ms: u64,
) -> Result<ResultModel, ErrorModel> {
    match reading {
        ElasticReading::Search { limit, resumable } => match search_hits(answer) {
            Err(error) => Err(error),
            Ok(hits) => search_outcome(
                context,
                profile,
                hits,
                limit,
                resumable,
                sizes,
                elapsed_ms,
            ),
        },
        ElasticReading::Bulk => match bulk_result(answer) {
            Err(error) => Err(error),
            Ok(affected) => finished(
                context,
                profile,
                Seq::empty(),
                Seq::empty(),
                None,
                affected,
                WriteOutcome::Succeeded,
                elapsed_ms,
            ),
        },
        ElasticReading::Native => finished(
            context,
            profile,
            generic_records(answer),
            sizes,
            None,
            0,
            WriteOutcome::NotApplicable,
            elapsed_ms,
        ),
    }
}

/// Makes the result of a search.
fn finish_search(
    context: &ConnectorContext,
    profile: &ConnectionProfile,
    hits: &Vec<Json>,
    found: Vec<DbRecord>,
    limit: usize,
    resumable: bool,
    sizes: Vec<u64>,
    elapsed_ms: u64,
) -> (result: Result<OperationResult, ConnectorError>)
    requires
        records(found@) == hit_records(
            documents(hits@).subrange(0, smaller(hits@.len() as int, limit as int)),
        ),
        sizes@.len() == found@.len(),
        limit > 0,
    ensures
        is_result_of(
            result,
            search_outcome(
                *context,
                *profile,
                documents(hits@),
                limit,
                resumable,
                sizes@,
                elapsed_ms,
            ),
        ),
{
    let ghost all = documents(hits@);
    let ghost given = sizes@;
    let mut found = found;
    let mut sizes = sizes;
    let candidates: usize = found.len();
    assert(records(found@).len() == candidates);
    let (kept, _): (usize, u64) = count_fitting(
        &sizes,
        limit,
        effective_bytes(context, profile),
    );
    if candidates > 0 && kept == 0 {
        return Err(invalid("the first search hit exceeds the configured max_bytes limit"));
    }
    let truncated = hits.len() > limit || kept < candidates;
    let mut next_cursor: Option<String> = None;
    if truncated && resumable {
        assert(all[kept - 1] == hits@[kept - 1]@);
        match hits[kept - 1].get("sort") {
            None => {
                return Err(protocol("sorted search response did not contain sort values"));
            },
            Some(sort) => match encode_cursor(sort) {
                Err(error) => {
                    return Err(error);
                },
                Ok(cursor) => {
                    next_cursor = Some(cursor);
                },
            },
        }
    }
    let ghost before = records(found@);
    found.truncate(kept);
    sizes.truncate(kept);
    assert(records(found@) =~= before.subrange(0, kept as int));
    assert(sizes@ =~= given.subrange(0, kept as int));
    let finish = Finish {
        next_cursor,
        affected: 0,
        outcome: WriteOutcome::NotApplicable,
        elapsed_ms,
    };
    match finish_result(context, profile, found, &sizes, finish) {
        Err(error) => Err(error),
        Ok(result) => {
            let mut result = result;
            result.truncated = result.truncated || truncated;
            Ok(result)
        },
    }
}

/// Makes the result of an operation whose answer holds records of the given encoded sizes.
pub fn finish_operation(
    context: &ConnectorContext,
    profile: &ConnectionProfile,
    reading: ElasticReading,
    answer: &Json,
    sizes: Vec<u64>,
    elapsed_ms: u64,
) -> (result: Result<OperationResult, ConnectorError>)
    requires
        reading matches ElasticReading::Search { limit, .. } ==> limit > 0,
        answer_records(reading, answer@) matches Ok(found) ==> sizes@.len() == found.len(),
    ensures
        is_result_of(
            result,
            operation_outcome(*context, *profile, reading, answer@, sizes@, elapsed_ms),
        ),
{
    let found = match read_records(reading, answer) {
        Err(error) => {
            return Err(error);
        },
        Ok(found) => found,
    };
    assert(records(found@).len() == found@.len());
    match reading {
        ElasticReading::Search { limit, resumable } => match as_items(
            find_nested(answer, "hits", "hits"),
        ) {
            None => Err(protocol("search response did not contain hits.hits")),
            Some(hits) => finish_search(
                context,
                profile,
                hits,
                found,
                limit,
                resumable,
                sizes,
                elapsed_ms,
            ),
        },
        ElasticReading::Bulk => match read_bulk(answer) {
            Err(error) => Err(error),
            Ok(affected) => {
                assert(sizes@ =~= Seq::<u64>::empty());
                finish_result(
                    context,
                    profile,
                    found,
                    &sizes,
                    Finish {
                        next_cursor: None,
                        affected,
                        outcome: WriteOutcome::Succeeded,
                        elapsed_ms,
                    },
                )
            },
        },
        ElasticReading::Native => finish_result(
            context,
            profile,
            found,
            &sizes,
            Finish {
                next_cursor: None,
                affected: 0,
                outcome: WriteOutcome::NotApplicable,
                elapsed_ms,
            },
        ),
    }
}

/// How the client of a connection is set up. OpenSearch takes no API keys.
pub open spec fn elastic_client(
    profile: ConnectionProfile,
    kind: AuthKind,
    fields: Seq<(Seq<char>, Seq<char>)>,
) -> Result<PlanModel, ErrorModel> {
    if profile.product == Product::OpenSearch && kind == AuthKind::ApiKey {
        Err(
            unsupported_request(
                "OpenSearch does not support Elasticsearch-style API key authentication"@,
            ),
        )
    } else {
        client_result(profile, kind, fields, AuthStyle::Standard, Seq::empty())
    }
}

impl ElasticAdapter {
    /// The connector for a product.
    pub fn new(flavor: ElasticFlavor) -> (result: ElasticAdapter)
        ensures
            result.flavor == flavor,
    {
        ElasticAdapter { flavor }
    }

    /// What the connector says of itself.
    pub fn manifest(&self) -> (result: ConnectorManifest)
        ensures
            result.id@ == flavor_mode(self.flavor) + "-http"@,
            result.display_name@ == flavor_title(self.flavor),
            result.product == flavor_product(self.flavor),
            result.api_mode@ == flavor_mode(self.flavor),
            result.driver@ == "reqwest-rest"@,
            result.driver_version@ == "0.1.0"@,
            result.status == ConnectorStatus::Experimental,
            result.capabilities@ == elastic_capabilities(),
            result.auth_kinds@ == flavor_auth_kinds(self.flavor),
            texts(result.limitations@) == seq![
                "delete and structured update require explicit _id equality/IN filters"@,
            ].push("search cursors require an explicit deterministic sort"@).push(
                "index, security, snapshot, and cluster administration are not exposed"@,
            ).push("idempotency keys are enforced by the local runtime, not by the REST API"@),
    {
        let mut capabilities: Vec<Capability> = Vec::new();
        capabilities.push(Capability::TestConnection);
        capabilities.push(Capability::Discover);
        capabilities.push(Capability::Describe);
        capabilities.push(Capability::Read);
        capabilities.push(Capability::Insert);
        capabilities.push(Capability::Update);
        capabilities.push(Capability::Delete);
        capabilities.push(Capability::Batch);
        capabilities.push(Capability::NativeQuery);
        capabilities.push(Capability::TextSearch);
        let mut auth_kinds: Vec<AuthKind> = Vec::new();
        auth_kinds.push(AuthKind::Anonymous);
        auth_kinds.push(AuthKind::UsernamePassword);
        match self.flavor {
            ElasticFlavor::Elasticsearch => {
                auth_kinds.push(AuthKind::ApiKey);
            },
            ElasticFlavor::OpenSearch => {},
        }
        auth_kinds.push(AuthKind::BearerToken);
        auth_kinds.push(AuthKind::ClientCertificate);
        let mut limitations: Vec<String> = Vec::new();
        limitations.push(
            "delete and structured update require explicit _id equality/IN filters".to_owned(),
        );
        limitations.push("search cursors require an explicit deterministic sort".to_owned());
        limitations.push(
            "index, security, snapshot, and cluster administration are not exposed".to_owned(),
        );
        limitations.push(
            "idempotency keys are enforced by the local runtime, not by the REST API".to_owned(),
        );
        ConnectorManifest {
            id: appended(self.flavor.api_mode(), "-http"),
            display_name: self.flavor.name().to_owned(),
            product: self.flavor.product(),
            api_mode: self.flavor.api_mode().to_owned(),
            driver: "reqwest-rest".to_owned(),
            driver_version: "0.1.0".to_owned(),
            status: ConnectorStatus::Experimental,
            capabilities,
            auth_kinds,
            limitations,
        }
    }

    /// Refuses profiles that are not for this connector.
    pub fn validate(&self, profile: &ConnectionProfile) -> (result: Result<(), ConnectorError>)
        ensures
            error_of(result) == profile_error(
                *profile,
                flavor_product(self.flavor),
                Seq::empty().push(flavor_mode(self.flavor)),
            ),
    {
        let mode = self.flavor.api_mode();
        assert(names_of([mode]@) =~= Seq::empty().push(mode@));
        validate_profile(profile, self.flavor.product(), &[mode])
    }

    /// Refuses a profile and a credential with which no connection could be made.
    pub fn validate_connection_input(
        &self,
        profile: &ConnectionProfile,
        secret: &SecretMaterial,
    ) -> (result: Result<(), ConnectorError>)
        ensures
            error_of(result) == first_error(
                profile_error(
                    *profile,
                    flavor_product(self.flavor),
                    Seq::empty().push(flavor_mode(self.flavor)),
                ),
                failing(elastic_client(*profile, secret.kind, secret.fields@)),
            ),
    {
        match self.validate(profile) {
            Err(error) => {
                return Err(error);
            },
            Ok(_) => {},
        }
        match Self::client(profile, secret) {
            Err(error) => Err(error),
            Ok(_) => Ok(()),
        }
    }

    /// How the client of a connection is set up.
    pub fn client(profile: &ConnectionProfile, secret: &SecretMaterial) -> (result: Result<
        ClientPlan,
        ConnectorError,
    >)
        ensures
            match (result, elastic_client(*profile, secret.kind, secret.fields@)) {
                (Ok(plan), Ok(wanted)) => plan@ == wanted,
                (Err(error), Err(wanted)) => error@ == wanted,
                _ => false,
            },
    {
        if profile.product == Product::OpenSearch && secret.kind == AuthKind::ApiKey {
            return Err(
                unsupported(
                    "OpenSearch does not support Elasticsearch-style API key authentication",
                ),
            );
        }
        client_plan(profile, secret, AuthStyle::Standard, &Vec::new())
    }

    /// The request for what the server says of itself.
    pub fn test_request(&self, profile: &ConnectionProfile) -> (result: HttpRequest)
        ensures
            result@ == plain_request(MethodModel::Get, profile.endpoint.text@),
    {
        request(HttpMethod::Get, profile.endpoint.text.clone())
    }

    /// Refuses a server that is not the expected product.
    pub fn verify_product(&self, answer: &Json) -> (result: Result<(), ConnectorError>)
        ensures
            error_of(result) == product_error(self.flavor, answer@),
    {
        let tagline = match as_text(answer.get("tagline")) {
            Some(tagline) => to_lower(tagline),
            None => to_lower(""),
        };
        proof {
            reveal_strlit("");
            assert(""@ =~= Seq::<char>::empty());
        }
        let distribution = match as_text(find_nested(answer, "version", "distribution")) {
            Some(distribution) => same(distribution, "opensearch"),
            None => false,
        };
        let is_opensearch = distribution || contains_text(tagline.as_str(), "opensearch");
        let is_elasticsearch = contains_text(tagline.as_str(), "you know, for search");
        match self.flavor {
            ElasticFlavor::Elasticsearch => {
                if is_opensearch {
                    return Err(
                        mismatch_error(
                            "the endpoint identifies itself as OpenSearch, not Elasticsearch",
                        ),
                    );
                }
                if !is_elasticsearch {
                    return Err(
                        mismatch_error("the endpoint does not identify itself as Elasticsearch"),
                    );
                }
            },
            ElasticFlavor::OpenSearch => {
                if !is_opensearch {
                    return Err(
                        mismatch_error("the endpoint does not identify itself as OpenSearch"),
                    );
                }
            },
        }
        if as_text(find_nested(answer, "version", "number")).is_none() {
            return Err(mismatch_error("search endpoint did not return a product version"));
        }
        Ok(())
    }

    /// What the server says of itself.
    pub fn connection_info(&self, answer: &Json) -> (result: Result<
        ConnectionInfo,
        ConnectorError,
    >)
        ensures
            is_info_result(result, elastic_info(self.flavor, answer@)),
    {
        match self.verify_product(answer) {
            Err(error) => {
                return Err(error);
            },
            Ok(()) => {},
        }
        Ok(
            ConnectionInfo {
                product_name: self.flavor.name().to_owned(),
                product_version: owned_optional(
                    as_text(find_nested(answer, "version", "number")),
                ),
                api_mode: self.flavor.api_mode().to_owned(),
                server_identity: owned_optional(as_text(answer.get("name"))),
                warnings: Vec::new(),
            },
        )
    }

    /// The request for the index catalog; none where the query asks for another namespace.
    pub fn catalog_request(&self, profile: &ConnectionProfile, query: &CatalogQuery) -> (result:
        Result<Option<HttpRequest>, ConnectorError>)
        ensures
            match result {
                Ok(None) => query.namespace matches Some(namespace) && namespace@ != "index"@,
                Ok(Some(request)) => {
                    &&& query.namespace matches Some(namespace) ==> namespace@ == "index"@
                    &&& segments_result(profile.endpoint@, names_of(["_cat", "indices"]@)) == Ok::<
                        Seq<char>,
                        ErrorModel,
                    >(request.url@)
                    &&& request@ == (RequestModel {
                        query: Seq::empty().push(("format"@, "json"@)).push(
                            ("h"@, "index,docs.count,store.size,health,status"@),
                        ),
                        ..plain_request(MethodModel::Get, request.url@)
                    })
                },
                Err(error) => {
                    &&& query.namespace matches Some(namespace) ==> namespace@ == "index"@
                    &&& segments_result(profile.endpoint@, names_of(["_cat", "indices"]@)) == Err::<
                        Seq<char>,
                        ErrorModel,
                    >(error@)
                },
            },
    {
        match &query.namespace {
            Some(namespace) => {
                if !same(namespace.as_str(), "index") {
                    return Ok(None);
                }
            },
            None => {},
        }
        assert(names_of(["_cat", "indices"]@) =~= names_of(
            ["_cat", "indices"]@,
        ));
        match api_url(profile, &["_cat", "indices"]) {
            Err(error) => Err(error),
            Ok(url) => {
                let mut request = request(HttpMethod::Get, url);
                request.query.push(("format".to_owned(), "json".to_owned()));
                request.query.push(
                    ("h".to_owned(), "index,docs.count,store.size,health,status".to_owned()),
                );
                Ok(Some(request))
            },
        }
    }

    /// The entities that a catalog query found.
    pub fn catalog_entities(&self, answer: &Json, query: &CatalogQuery) -> (result: Result<
        Vec<CatalogEntity>,
        ConnectorError,
    >)
        ensures
            is_entities_result(
                result,
                found_indexes(answer@, optional_text(query.pattern), optional_text(query.cursor)),
            ),
    {
        let rows = match answer {
            Json::Array(rows) => rows,
            _ => {
                return Err(protocol("index catalog was not an array"));
            },
        };
        let ghost all = documents(rows@);
        let ghost pattern = optional_text(query.pattern);
        let mut found: Vec<CatalogEntity> = Vec::new();
        let mut i: usize = 0;
        assert(all.subrange(0, 0) =~= Seq::<JsonModel>::empty());
        while i < rows.len()
            invariant
                i <= rows@.len(),
                all == documents(rows@),
                pattern == optional_text(query.pattern),
                entities(found@) == indexes_of_rows(all.subrange(0, i as int), pattern),
            decreases rows@.len() - i,
        {
            assert(all.subrange(0, i + 1).drop_last() =~= all.subrange(0, i as int));
            match read_index(&rows[i], borrowed(&query.pattern)) {
                Some(entity) => {
                    found.push(entity);
                },
                None => {},
            }
            i = i + 1;
        }
        assert(all.subrange(0, i as int) =~= all);
        let sorted = sort_by_name(found);
        match parse_cursor_offset(borrowed(&query.cursor)) {
            Err(error) => Err(error),
            Ok(offset) => Ok(skip_entities(sorted, offset)),
        }
    }

    /// The request for the mapping of an index.
    pub fn describe_request(&self, profile: &ConnectionProfile, entity_id: &str) -> (result: Result<
        HttpRequest,
        ConnectorError,
    >)
        ensures
            is_request_result(
                result,
                match target_error(entity_id@) {
                    Some(error) => Err(error),
                    None => match segments_result(
                        profile.endpoint@,
                        Seq::empty().push(entity_id@).push("_mapping"@),
                    ) {
                        Err(error) => Err(error),
                        Ok(url) => Ok(plain_request(MethodModel::Get, url)),
                    },
                },
            ),
    {
        match validate_target(entity_id) {
            Err(error) => {
                return Err(error);
            },
            Ok(()) => {},
        }
        assert(names_of([entity_id, "_mapping"]@) =~= Seq::empty().push(
            entity_id@,
        ).push("_mapping"@));
        match api_url(profile, &[entity_id, "_mapping"]) {
            Err(error) => Err(error),
            Ok(url) => Ok(request(HttpMethod::Get, url)),
        }
    }

    /// Describes an index by its mapping.
    pub fn describe_entity(&self, answer: &Json, entity_id: &str) -> (result: Result<
        EntityDescription,
        ConnectorError,
    >)
        ensures
            is_description_result(result, index_description(self.flavor, entity_id@, answer@)),
    {
        let mapping = match answer.get(entity_id) {
            Some(mapping) => mapping,
            None => match answer {
                Json::Object(list) => {
                    if list.len() == 0 {
                        return Err(protocol("mapping response did not contain the index"));
                    }
                    assert(members(list@)[0].1 == list@[0].1@);
                    &list[0].1
                },
                _ => {
                    return Err(protocol("mapping response did not contain the index"));
                },
            },
        };
        let mut fields: Vec<DbRecord> = Vec::new();
        let mut count: u64 = 0;
        proof {
            reveal_strlit("");
            assert(""@ =~= Seq::<char>::empty());
        }
        match as_members(find_nested(mapping, "mappings", "properties")) {
            Some(properties) => {
                count = properties.len() as u64;
                collect_mapping_fields(properties, "", &mut fields);
                assert(records(fields@) =~= mapping_fields(
                    members(properties@),
                    Seq::<char>::empty(),
                ));
            },
            None => {},
        }
        let mut metadata = DbRecord::new();
        metadata.insert("product".to_owned(), DbValue::String(self.flavor.name().to_owned()));
        metadata.insert("field_count".to_owned(), DbValue::UInt64(count));
        Ok(
            EntityDescription {
                entity: CatalogEntity {
                    id: entity_id.to_owned(),
                    namespace: Some("index".to_owned()),
                    name: entity_id.to_owned(),
                    kind: "index".to_owned(),
                    comment: None,
                },
                fields,
                metadata,
                truncated: false,
                warnings: Vec::new(),
            },
        )
    }

    /// Makes the request of an operation.
    pub fn begin_operation(
        &self,
        context: &ConnectorContext,
        profile: &ConnectionProfile,
        operation: &DataOperation,
        remaining_ms: u64,
    ) -> (result: Result<ElasticCall, ConnectorError>)
        ensures
            is_call_result(
                result,
                operation_call(self.flavor, *context, *profile, *operation, remaining_ms),
            ),
            result matches Ok(call) ==> (call.reading matches ElasticReading::Search {
                limit,
                ..
            } ==> limit > 0),
    {
        match operation {
            DataOperation::Read(request) => begin_read(context, profile, request, remaining_ms),
            DataOperation::Search(request) => begin_search(
                context,
                profile,
                request,
                remaining_ms,
            ),
            DataOperation::Insert(request) => begin_insert(profile, request),
            DataOperation::Update(request) => begin_update(profile, request),
            DataOperation::Delete(request) => begin_delete(profile, request),
            DataOperation::NativeQuery(request) => begin_native(self.flavor, profile, request),
            _ => Err(unsupported("operation is not supported by this search connector")),
        }
    }
}

/// The connector for Elasticsearch.
#[derive(Debug, Clone, Copy)]
pub struct ElasticsearchConnector {
    pub inner: ElasticAdapter,
}

impl Default for ElasticsearchConnector {
    fn default() -> (result: ElasticsearchConnector)
        ensures
            result.inner.flavor == ElasticFlavor::Elasticsearch,
    {
        ElasticsearchConnector { inner: ElasticAdapter::new(ElasticFlavor::Elasticsearch) }
    }
}

/// The connector for OpenSearch.
#[derive(Debug, Clone, Copy)]
pub struct OpenSearchConnector {
    pub inner: ElasticAdapter,
}

impl Default for OpenSearchConnector {
    fn default() -> (result: OpenSearchConnector)
        ensures
            result.inner.flavor == ElasticFlavor::OpenSearch,
    {
        OpenSearchConnector { inner: ElasticAdapter::new(ElasticFlavor::OpenSearch) }
    }
}

/// A write succeeds only where the answer says so of every record.
pub proof fn lemma_writes_are_confirmed(
    context: ConnectorContext,
    profile: ConnectionProfile,
    answer: JsonModel,
    sizes: Seq<u64>,
    elapsed_ms: u64,
)
    ensures
        operation_outcome(
            context,
            profile,
            ElasticReading::Bulk,
            answer,
            sizes,
            elapsed_ms,
        ) matches Ok(result) ==> {
            let items = items_of(member(answer, "items"@))->0;
            &&& result.outcome == WriteOutcome::Succeeded
            &&& result.metrics.affected == items.len() as u64
            &&& forall|i: int|
                0 <= i < items.len() ==> crate::http::elastic_query::is_done(#[trigger] items[i])
        },
{
    crate::http::elastic_query::lemma_bulk_success_is_complete(answer);
}

/// A search that shows a cursor goes on behind the last hit that it returned: the cursor holds
/// that hit's sort values.
pub proof fn lemma_search_cursor_follows_last_hit(
    context: ConnectorContext,
    profile: ConnectionProfile,
    hits: Seq<JsonModel>,
    limit: usize,
    sizes: Seq<u64>,
    elapsed_ms: u64,
)
    requires
        0 < limit <= context.max_rows,
        limit <= profile.policy.max_rows,
        sizes.len() == smaller(hits.len() as int, limit as int),
    ensures
        search_outcome(context, profile, hits, limit, true, sizes, elapsed_ms) matches Ok(result)
            ==> {
            let kept = result.records.len();
            &&& result.records == hit_records(hits).subrange(0, kept as int)
            &&& result.next_cursor is Some <==> kept < hits.len()
            &&& result.next_cursor matches Some(cursor) ==> {
                &&& member(hits[kept - 1], "sort"@) is Some
                &&& cursor_text(member(hits[kept - 1], "sort"@)->0) == Ok::<
                    Seq<char>,
                    ErrorModel,
                >(cursor)
            }
        },
{
    let shown = hits.subrange(0, smaller(hits.len() as int, limit as int));
    lemma_prefix_is_kept(context, profile, hit_records(shown), sizes, limit as nat);
    let kept = kept_count(sizes, limit as nat, byte_limit(context, profile)) as int;
    assert(hit_records(shown).subrange(0, kept) =~= hit_records(hits).subrange(0, kept));
}

/// The connector takes up no operation that its manifest does not name, and in particular no
/// native write.
pub proof fn lemma_only_named_operations_start(
    flavor: ElasticFlavor,
    context: ConnectorContext,
    profile: ConnectionProfile,
    operation: DataOperation,
    remaining_ms: u64,
)
    ensures
        operation_call(flavor, context, profile, operation, remaining_ms) is Ok ==> covers(
            elastic_capabilities(),
            operation,
        ),
        !elastic_capabilities().contains(Capability::NativeExecute),
{
    let list = elastic_capabilities();
    assert(list[0] == Capability::TestConnection);
    assert(list[1] == Capability::Discover);
    assert(list[2] == Capability::Describe);
    assert(list[3] == Capability::Read);
    assert(list[4] == Capability::Insert);
    assert(list[5] == Capability::Update);
    assert(list[6] == Capability::Delete);
    assert(list[7] == Capability::Batch);
    assert(list[8] == Capability::NativeQuery);
    assert(list[9] == Capability::TextSearch);
}

} // verus!
