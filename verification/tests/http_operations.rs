use sql_connector::encoding::{read_json, write_json};
use sql_connector::http::elastic::{
    native_search_path_allowed, ElasticFlavor, ElasticReading, ElasticsearchConnector,
    OpenSearchConnector,
};
use sql_connector::http::elastic_query::{
    decode_cursor, elastic_filter, encode_cursor, read_bulk,
};
use sql_connector::http::milvus::{continue_upsert, MilvusPlan, MilvusReading, MilvusRestConnector};
use sql_connector::http::milvus_query::milvus_filter;
use sql_connector::http::pinecone::{
    ensure_read_page_fits, pinecone_native_read_path, PineconeConnector, PineconeReading,
};
use sql_connector::http::qdrant::{QdrantReading, QdrantRestConnector};
use sql_connector::http::qdrant_query::{
    qdrant_filter, qdrant_id_from_str, qdrant_native_read_path, validate_qdrant_id_value,
};
use sql_connector::http::splunk::{begin_catalog, SplunkConnector, SplunkReading};
use sql_connector::http::splunk_query::{
    spl_filter, splunk_read_spl, splunk_result_record, splunk_search_request,
    validate_read_only_spl,
};
use sql_connector::http::transport::{HttpBody, HttpMethod, HttpRequest};
use sql_connector::http::weaviate::{
    finish_list, read_list, weaviate_native_read_path, UpsertPhase, WeaviateConnector,
    WeaviatePlan,
};
use sql_connector::model::{
    AuthKind, Capability, CatalogQuery, ConnectionPolicy, ConnectionProfile, ConnectorContext,
    ConnectorError, DataOperation, DeleteRequest, Endpoint, ErrorCategory, Filter, InsertRequest, NativeRequest,
    Product, QueryOptions, ReadRequest, SearchRequest, SecretMaterial, SortDirection, SortField,
    TextFields, TlsConfig, UpdateRequest, VectorPoint, VectorSearchRequest, VectorUpsertRequest,
};
use sql_connector::value::{DbRecord, DbValue, Double, Json};

fn endpoint(text: &str) -> Endpoint {
    let url = url::Url::parse(text).expect("URL is valid");
    let owned = |part: Option<&str>| part.map(str::to_owned);
    Endpoint {
        text: url.to_string(),
        scheme: url.scheme().to_owned(),
        host: owned(url.host_str()),
        port: url.port(),
        path: url.path().to_owned(),
        username: url.username().to_owned(),
        password: owned(url.password()),
        query: owned(url.query()),
        fragment: owned(url.fragment()),
        cannot_be_a_base: url.cannot_be_a_base(),
    }
}

fn profile(address: &str, product: Product, api_mode: &str, auth_kind: AuthKind) -> ConnectionProfile {
    ConnectionProfile {
        product,
        api_mode: api_mode.to_owned(),
        endpoint: endpoint(address),
        database: None,
        auth_kind,
        tls: TlsConfig {
            enabled: false,
            verify_server_certificate: true,
            server_name: None,
            ca_certificate_ref: None,
            client_certificate_ref: None,
        },
        policy: ConnectionPolicy {
            max_rows: 100,
            max_bytes: 2 * 1024 * 1024,
            timeout_ms: 5_000,
            max_affected: 100,
            allow_native_read: true,
            allow_native_write: false,
        },
        options: Vec::new(),
    }
}

fn context(request_id: &str) -> ConnectorContext {
    ConnectorContext {
        request_id: request_id.to_owned(),
        max_rows: 100,
        max_bytes: 2 * 1024 * 1024,
    }
}

fn secret(kind: AuthKind, fields: &[(&str, &str)]) -> SecretMaterial {
    let mut list = TextFields::new();
    for (name, value) in fields {
        list.insert((*name).to_owned(), (*value).to_owned());
    }
    SecretMaterial { kind, fields: list }
}

fn json(text: &str) -> Json {
    read_json(text.as_bytes()).expect("text is JSON")
}

fn canonical(document: &Json) -> String {
    write_json(document).expect("document can be written")
}

fn body_of(request: &HttpRequest) -> String {
    match &request.body {
        HttpBody::Json(document) => canonical(document),
        HttpBody::Text { text, .. } => text.clone(),
        HttpBody::Form(fields) => format!("{fields:?}"),
        HttpBody::Empty => String::new(),
    }
}

fn text_in<'a>(record: &'a DbRecord, name: &str) -> Option<&'a str> {
    match record.get(name) {
        Some(DbValue::String(text)) => Some(text.as_str()),
        _ => None,
    }
}

fn options(limit: u32) -> QueryOptions {
    QueryOptions { limit, cursor: None, sort: Vec::new(), timeout_ms: None }
}

fn catalog(pattern: Option<&str>, namespace: &str, limit: u32, cursor: Option<String>) -> CatalogQuery {
    CatalogQuery {
        pattern: pattern.map(str::to_owned),
        namespace: Some(namespace.to_owned()),
        limit,
        cursor,
    }
}

const SERVER: &str = "http://localhost:9200/";
const FIRST: &str = "4b39d9be-679a-4c00-8db7-06ad46fe9a3a";
const SECOND: &str = "00000000-0000-4000-8000-000000000002";

fn text(value: &str) -> DbValue {
    DbValue::String(value.to_owned())
}

fn record(entries: &[(&str, DbValue)]) -> DbRecord {
    let mut record = DbRecord::new();
    for (name, value) in entries {
        record.insert((*name).to_owned(), value.copy());
    }
    record
}

fn ids(field: &str, list: &[&str]) -> Filter {
    Filter::In { field: field.to_owned(), values: list.iter().map(|id| text(id)).collect() }
}

fn read(target: &str, filter: Option<Filter>, limit: u32) -> ReadRequest {
    ReadRequest { target: target.to_owned(), fields: Vec::new(), filter, options: options(limit) }
}

fn delete(target: &str, filter: Filter) -> DataOperation {
    DataOperation::Delete(DeleteRequest {
        target: target.to_owned(),
        filter,
        max_affected: 10,
        idempotency_key: None,
    })
}

fn native(language: &str, statement: &str) -> DataOperation {
    DataOperation::NativeQuery(NativeRequest {
        language: language.to_owned(),
        statement: statement.to_owned(),
        parameters: DbRecord::new(),
        positional_parameters: Vec::new(),
        max_affected: None,
    })
}

fn upsert(target: &str, list: &[&str]) -> VectorUpsertRequest {
    VectorUpsertRequest {
        target: target.to_owned(),
        points: list
            .iter()
            .map(|id| VectorPoint {
                id: (*id).to_owned(),
                vector: vec![Double::Finite("0.5".to_owned()), Double::NotANumber],
                metadata: record(&[("title", text("t"))]),
            })
            .collect(),
        namespace: None,
        idempotency_key: None,
    }
}

fn all_filters() -> Filter {
    let field = || "f".to_owned();
    Filter::And {
        filters: vec![
            Filter::Or {
                filters: vec![
                    Filter::Eq { field: field(), value: DbValue::Int64(1) },
                    Filter::Ne { field: field(), value: DbValue::Bool(true) },
                ],
            },
            Filter::Not { filter: Box::new(Filter::Lt { field: field(), value: DbValue::Int64(2) }) },
            Filter::Lte { field: field(), value: DbValue::Int64(3) },
            Filter::Gt { field: field(), value: DbValue::Int64(4) },
            Filter::Gte { field: field(), value: DbValue::Int64(5) },
            Filter::In { field: field(), values: vec![text("a"), text("b")] },
        ],
    }
}

fn contains() -> Filter {
    Filter::Contains { field: "f".to_owned(), value: text("a\"b") }
}

fn infinite() -> Filter {
    Filter::Eq {
        field: "f".to_owned(),
        value: DbValue::Float64(Double::Infinite { negative: false }),
    }
}

#[test]
fn elastic_filters_become_queries() {
    assert_eq!(
        canonical(&elastic_filter(&all_filters()).unwrap()),
        canonical(&json(
            r#"{"bool": {"filter": [
                {"bool": {"should": [
                    {"term": {"f": 1}},
                    {"bool": {"must_not": [{"term": {"f": true}}]}}
                ], "minimum_should_match": 1}},
                {"bool": {"must_not": [{"range": {"f": {"lt": 2}}}]}},
                {"range": {"f": {"lte": 3}}},
                {"range": {"f": {"gt": 4}}},
                {"range": {"f": {"gte": 5}}},
                {"terms": {"f": ["a", "b"]}}
            ]}}"#
        ))
    );
    assert_eq!(
        canonical(&elastic_filter(&contains()).unwrap()),
        r#"{"match_phrase":{"f":"a\"b"}}"#
    );
    assert_eq!(
        elastic_filter(&infinite()).unwrap_err().message,
        "JSON cannot encode NaN or infinity"
    );
}

#[test]
fn elastic_cursors_are_read_back() {
    let sort = json(r#"["x", 7, null]"#);
    let cursor = encode_cursor(&sort).unwrap();
    assert_eq!(cursor, "WyJ4Iiw3LG51bGxd");
    assert_eq!(canonical(&decode_cursor(&cursor).unwrap()), canonical(&sort));
    assert!(decode_cursor("!").is_err());
    assert!(decode_cursor("e30").is_err());
}

#[test]
fn elastic_writes_are_bulk_lines() {
    let elastic =
        profile(SERVER, Product::Elasticsearch, "elasticsearch_rest", AuthKind::Anonymous);
    let adapter = ElasticsearchConnector::default().inner;
    let run = |operation: &DataOperation| {
        adapter.begin_operation(&context("r"), &elastic, operation, 1_000)
    };
    let insert = DataOperation::Insert(InsertRequest {
        target: "books".to_owned(),
        records: vec![
            record(&[("_id", text("1")), ("title", text("Rust"))]),
            record(&[("title", text("Go"))]),
        ],
        idempotency_key: None,
    });
    let call = run(&insert).unwrap();
    assert_eq!(call.request.url, "http://localhost:9200/_bulk");
    assert_eq!(call.request.query, vec![("refresh".to_owned(), "wait_for".to_owned())]);
    assert_eq!(
        body_of(&call.request),
        "{\"create\":{\"_id\":\"1\",\"_index\":\"books\"}}\n{\"title\":\"Rust\"}\n\
         {\"create\":{\"_index\":\"books\"}}\n{\"title\":\"Go\"}\n"
    );
    assert!(matches!(call.reading, ElasticReading::Bulk));
    let update = DataOperation::Update(UpdateRequest {
        target: "books".to_owned(),
        filter: ids("_id", &["1"]),
        changes: record(&[("title", text("C"))]),
        max_affected: 1,
        idempotency_key: None,
    });
    assert_eq!(
        body_of(&run(&update).unwrap().request),
        "{\"update\":{\"_id\":\"1\",\"_index\":\"books\"}}\n{\"doc\":{\"title\":\"C\"}}\n"
    );
    let call = run(&delete("books", ids("id", &["1", "2"]))).unwrap();
    assert_eq!(
        body_of(&call.request),
        "{\"delete\":{\"_id\":\"1\",\"_index\":\"books\"}}\n{\"delete\":{\"_id\":\"2\",\"_index\":\"books\"}}\n"
    );
    assert_eq!(
        run(&delete("books", ids("title", &["1"]))).unwrap_err().category,
        ErrorCategory::Unsupported
    );
    assert_eq!(
        run(&DataOperation::VectorUpsert(upsert("books", &["1"]))).unwrap_err().message,
        "operation is not supported by this search connector"
    );
}

#[test]
fn elastic_bulk_answers_must_confirm_every_item() {
    assert_eq!(
        read_bulk(&json(r#"{"items": [{"create": {"status": 201}}, {"create": {"status": 200}}]}"#))
            .unwrap(),
        2
    );
    let unknown = |text: &str| {
        let error = read_bulk(&json(text)).unwrap_err();
        assert_eq!(error.category, ErrorCategory::UnknownOutcome);
        error.message
    };
    unknown("{}");
    unknown(r#"{"items": []}"#);
    unknown(r#"{"items": [{"create": {}}]}"#);
    assert_eq!(
        unknown(r#"{"items": [{"create": {"status": 201}}, {"create": {"status": 409}}]}"#),
        "bulk request completed 1 item(s) and failed 1 item(s)"
    );
    let rejected =
        read_bulk(&json(r#"{"items": [{"delete": {"status": 404}}, {"delete": {"status": 404}}]}"#))
            .unwrap_err();
    assert_eq!(rejected.category, ErrorCategory::NotFound);
    assert_eq!(rejected.message, "bulk request rejected all 2 item(s)");
    let mixed =
        read_bulk(&json(r#"{"items": [{"delete": {"status": 404}}, {"delete": {"status": 503}}]}"#))
            .unwrap_err();
    assert_eq!(mixed.category, ErrorCategory::InvalidRequest);
}

#[test]
fn elastic_catalog_and_mapping_are_described() {
    let elastic =
        profile(SERVER, Product::Elasticsearch, "elasticsearch_rest", AuthKind::Anonymous);
    let adapter = ElasticsearchConnector::default().inner;
    let query = catalog(Some("o"), "index", 10, Some("1".to_owned()));
    let request = adapter.catalog_request(&elastic, &query).unwrap().unwrap();
    assert_eq!(request.url, "http://localhost:9200/_cat/indices");
    assert!(adapter
        .catalog_request(&elastic, &catalog(None, "table", 10, None))
        .unwrap()
        .is_none());
    let found = adapter
        .catalog_entities(
            &json(
                r#"[{"index": "books", "docs.count": "7"}, {"index": "posts"},
                    {"index": "cats"}, {"name": "o"}, {"index": "dogs"}]"#,
            ),
            &query,
        )
        .unwrap();
    let names: Vec<&str> = found.iter().map(|entity| entity.name.as_str()).collect();
    assert_eq!(names, ["dogs", "posts"]);
    assert_eq!(found[0].comment.as_deref(), Some("documents=unknown"));
    assert!(adapter.catalog_entities(&json("{}"), &query).is_err());

    let description = adapter
        .describe_entity(
            &json(
                r#"{"books": {"mappings": {"properties": {
                    "author": {"properties": {"name": {"type": "keyword", "index": false}}},
                    "title": {"type": "text"}}}}}"#,
            ),
            "books",
        )
        .unwrap();
    let names: Vec<Option<&str>> =
        description.fields.iter().map(|field| text_in(field, "name")).collect();
    assert_eq!(names, [Some("author"), Some("author.name"), Some("title")]);
    assert_eq!(text_in(&description.fields[0], "type"), Some("object"));
    assert!(matches!(description.fields[1].get("indexed"), Some(DbValue::Bool(false))));
    assert!(matches!(description.metadata.get("field_count"), Some(DbValue::UInt64(2))));
    assert!(adapter.describe_entity(&json("[]"), "books").is_err());
    assert!(adapter.describe_request(&elastic, "a/b").is_err());
}

#[test]
fn elastic_native_requests_only_search() {
    let allowed = |method: HttpMethod, path: &str| native_search_path_allowed(&method, path);
    assert!(allowed(HttpMethod::Get, "/books/_mapping"));
    assert!(allowed(HttpMethod::Post, "/books/_search"));
    assert!(allowed(HttpMethod::Post, "/_search/template"));
    assert!(!allowed(HttpMethod::Get, "/books"));
    assert!(!allowed(HttpMethod::Post, "/books/_search/scroll"));
    assert!(!allowed(HttpMethod::Post, "/_bulk"));
    assert!(!allowed(HttpMethod::Get, "/_cluster/_search"));
    assert!(!allowed(HttpMethod::Put, "/books/_search"));
    assert_eq!(ElasticFlavor::OpenSearch.api_mode(), "opensearch_rest");
    assert_eq!(ElasticFlavor::Elasticsearch.name(), "Elasticsearch");
    assert_eq!(
        ElasticFlavor::OpenSearch.native_languages(),
        ["opensearch_http", "opensearch_dsl", "json"]
    );
    let open = profile(SERVER, Product::OpenSearch, "opensearch_rest", AuthKind::Anonymous);
    let adapter = OpenSearchConnector::default().inner;
    let run = |operation: &DataOperation| {
        adapter.begin_operation(&context("r"), &open, operation, 1_000)
    };
    let call = run(&native(
        "json",
        r#"{"method": "GET", "path": "/books/_count", "query": {"q": "a b"}}"#,
    ))
    .unwrap();
    assert_eq!(call.request.url, "http://localhost:9200/books/_count");
    assert_eq!(call.request.query, vec![("q".to_owned(), "a b".to_owned())]);
    assert_eq!(
        run(&native("json", r#"{"method": "GET", "path": "/books/_doc/1"}"#)).unwrap_err().category,
        ErrorCategory::PermissionDenied
    );
    assert_eq!(
        run(&native("elasticsearch_dsl", "{}")).unwrap_err().category,
        ErrorCategory::Unsupported
    );
}

#[test]
fn elastic_searches_keep_their_own_body() {
    let elastic =
        profile(SERVER, Product::Elasticsearch, "elasticsearch_rest", AuthKind::Anonymous);
    let adapter = ElasticsearchConnector::default().inner;
    let search = |query: &str, cursor: Option<&str>| {
        adapter.begin_operation(
            &context("r"),
            &elastic,
            &DataOperation::Search(SearchRequest {
                target: "books".to_owned(),
                query: json(query),
                options: QueryOptions {
                    limit: 5,
                    cursor: cursor.map(str::to_owned),
                    sort: Vec::new(),
                    timeout_ms: Some(10),
                },
            }),
            1_000,
        )
    };
    let call = search(r#"{"match": {"title": "x"}}"#, None).unwrap();
    assert_eq!(body_of(&call.request), r#"{"query":{"match":{"title":"x"}},"size":6}"#);
    assert_eq!(call.request.timeout_ms, Some(10));
    let call = search(r#"{"query": {"a": 1}, "size": 99, "sort": ["b"]}"#, Some("WzFd")).unwrap();
    assert_eq!(
        body_of(&call.request),
        r#"{"query":{"a":1},"search_after":[1],"size":6,"sort":["b"]}"#
    );
    assert!(matches!(call.reading, ElasticReading::Search { limit: 5, resumable: true }));
    assert_eq!(
        search("{}", Some("WzFd")).unwrap_err().message,
        "search cursor requires an explicit deterministic sort"
    );
    let first_too_large = sql_connector::http::elastic::finish_operation(
        &context("r"),
        &elastic,
        call.reading,
        &json(r#"{"hits": {"hits": [{"_id": "1"}]}}"#),
        vec![u64::MAX],
        1,
    )
    .unwrap_err();
    assert_eq!(
        first_too_large.message,
        "the first search hit exceeds the configured max_bytes limit"
    );
}

#[test]
fn milvus_reads_and_expressions() {
    assert_eq!(
        milvus_filter(&all_filters()).unwrap(),
        r#"((f == 1 or f != true) and not (f < 2) and f <= 3 and f > 4 and f >= 5 and f in ["a","b"])"#
    );
    assert_eq!(milvus_filter(&contains()).unwrap_err().category, ErrorCategory::Unsupported);
    let bad = Filter::Eq { field: "f; drop".to_owned(), value: DbValue::Null };
    assert_eq!(milvus_filter(&bad).unwrap_err().message, "invalid Milvus field name");

    let milvus = profile(SERVER, Product::Milvus, "milvus_rest_v2", AuthKind::Anonymous);
    let mut request = read("docs", Some(Filter::Gt { field: "n".to_owned(), value: DbValue::Int64(1) }), 2);
    request.options.cursor = Some("4".to_owned());
    let call = match MilvusRestConnector::begin_operation(
        &context("r"),
        &milvus,
        &DataOperation::Read(request),
    )
    .unwrap()
    {
        MilvusPlan::Call(call) => call,
        other => panic!("unexpected plan {other:?}"),
    };
    assert_eq!(
        body_of(&call.request),
        r#"{"collectionName":"docs","filter":"n > 1","limit":3,"offset":4,"outputFields":["*"]}"#
    );
    assert!(matches!(call.reading, MilvusReading::Page { limit: 2, offset: 4 }));
    let answer = json(r#"{"code": 0, "data": [{"n": 2}, {"n": 3}, {"n": 4}]}"#);
    let page = sql_connector::http::milvus::finish_operation(
        &context("r"),
        &milvus,
        call.reading,
        &answer,
        vec![9, 9, 9],
        1,
    )
    .unwrap();
    assert_eq!(page.records.len(), 2);
    assert_eq!(page.next_cursor.as_deref(), Some("6"));
    assert!(page.truncated);
    let nested = sql_connector::http::milvus::read_records(
        MilvusReading::Records,
        &json(r#"{"code": 0, "data": [[{"n": 2}, {"n": 3}]]}"#),
    )
    .unwrap();
    assert_eq!(nested.len(), 2);
    for (code, category) in [
        (1800, ErrorCategory::Authentication),
        (403, ErrorCategory::PermissionDenied),
        (404, ErrorCategory::NotFound),
        (7, ErrorCategory::Protocol),
    ] {
        let answer = json(&format!(r#"{{"code": {code}}}"#));
        let error = sql_connector::http::milvus::read_records(MilvusReading::Records, &answer);
        assert_eq!(error.unwrap_err().category, category);
    }
}

#[test]
fn milvus_writes_are_confirmed() {
    let milvus = profile(SERVER, Product::Milvus, "milvus_rest_v2", AuthKind::Anonymous);
    let call = |operation: &DataOperation| match MilvusRestConnector::begin_operation(
        &context("r"),
        &milvus,
        operation,
    ) {
        Ok(MilvusPlan::Call(call)) => call,
        other => panic!("unexpected plan {other:?}"),
    };
    let keys = Filter::In {
        field: "id".to_owned(),
        values: vec![DbValue::Int64(7), text("a\"b")],
    };
    let removal = call(&delete("docs", keys));
    assert_eq!(
        body_of(&removal.request),
        r#"{"collectionName":"docs","filter":"id in [7,\"a\\\"b\"]"}"#
    );
    let finish = |text: &str| {
        sql_connector::http::milvus::finish_operation(
            &context("r"),
            &milvus,
            removal.reading,
            &json(text),
            Vec::new(),
            1,
        )
    };
    assert_eq!(
        finish(r#"{"code": 0, "data": {"deleteCount": 2}}"#).unwrap().metrics.affected,
        2
    );
    assert_eq!(
        finish(r#"{"code": 0, "data": {"deleteCount": 0}}"#).unwrap_err().category,
        ErrorCategory::NotFound
    );
    assert_eq!(
        finish(r#"{"code": 0, "data": {"deleteCount": 3}}"#).unwrap_err().category,
        ErrorCategory::UnknownOutcome
    );
    assert_eq!(
        finish(r#"{"code": 0, "data": {}}"#).unwrap_err().category,
        ErrorCategory::Protocol
    );

    let request = upsert("docs", &["7"]);
    let described = json(
        r#"{"code": 0, "data": {"fields": [
            {"fieldName": "x", "isPrimary": true, "dataType": "Int64"},
            {"name": "id", "primaryKey": true, "type": "Int64"}]}}"#,
    );
    let written = continue_upsert(&milvus, &request, &described).unwrap();
    assert_eq!(
        body_of(&written.request),
        r#"{"collectionName":"docs","data":[{"id":7,"title":"t","vector":[0.5,null]}]}"#
    );
    let refused = |text: &str| continue_upsert(&milvus, &request, &json(text)).unwrap_err().message;
    assert_eq!(
        refused(r#"{"code": 0, "data": {"autoId": true}}"#),
        "Milvus vector upsert requires a collection with autoId disabled"
    );
    assert_eq!(
        refused(r#"{"code": 0, "data": {"fields": [{"name": "id"}]}}"#),
        "configured Milvus primary key field does not match the collection schema"
    );
    assert_eq!(
        refused(r#"{"code": 0, "data": {"fields": [{"name": "id", "isPrimary": true, "type": "Bool"}]}}"#),
        "Milvus vector upsert supports Int64 or VarChar primary keys"
    );
    assert_eq!(
        continue_upsert(&milvus, &upsert("docs", &["x"]), &described).unwrap_err().message,
        "Milvus Int64 primary-key ids must be signed 64-bit integers"
    );
    assert_eq!(
        MilvusRestConnector::begin_operation(
            &context("r"),
            &milvus,
            &native("json", r#"{"method": "GET", "path": "/v2/vectordb/entities/get"}"#),
        )
        .unwrap_err()
        .category,
        ErrorCategory::PermissionDenied
    );
}

#[test]
fn pinecone_pages_are_whole() {
    assert!(ensure_read_page_fits(&vec![10, 20], 30).is_ok());
    assert!(ensure_read_page_fits(&vec![10, 21], 30).is_err());
    assert!(ensure_read_page_fits(&vec![u64::MAX, 1], u64::MAX).is_ok());
    let pinecone =
        profile("http://localhost/", Product::Pinecone, "pinecone_2025_10", AuthKind::ApiKey);
    let base = endpoint("http://localhost:5081/");
    let run = |operation: &DataOperation| {
        PineconeConnector::continue_operation(&context("r"), &pinecone, operation, &base)
    };
    let call = run(&DataOperation::Read(read("docs", Some(ids("id", &["a", "b"])), 5))).unwrap();
    assert_eq!(call.request.url, "http://localhost:5081/vectors/fetch");
    assert_eq!(
        call.request.query,
        vec![("ids".to_owned(), "a".to_owned()), ("ids".to_owned(), "b".to_owned())]
    );
    assert_eq!(
        run(&DataOperation::Read(read("docs", Some(ids("id", &["a", "b"])), 1)))
            .unwrap_err()
            .message,
        "Pinecone fetch contains more ids than the requested row limit"
    );
    let listing = run(&DataOperation::Read(read("docs", None, 5))).unwrap();
    assert_eq!(listing.request.query, vec![("limit".to_owned(), "5".to_owned())]);
    let answer = json(r#"{"vectors": [{"id": "a"}], "pagination": {"next": "token"}}"#);
    let page = listing.reading.finish(&context("r"), &pinecone, &answer, &vec![9], 1).unwrap();
    assert_eq!(page.next_cursor.as_deref(), Some("token"));
    assert!(page.truncated);
    let fetched = PineconeReading::Fetch { fields: vec!["title".to_owned()] }
        .records(&json(
            r#"{"vectors": {"a": {"id": "a", "values": [1], "metadata": {"title": "t", "n": 1}}}}"#,
        ))
        .unwrap();
    assert_eq!(text_in(&fetched[0], "id"), Some("a"));
    assert_eq!(text_in(&fetched[0], "title"), Some("t"));
    assert_eq!(fetched[0].len(), 2);
    let removal = run(&delete("docs", ids("id", &["a"]))).unwrap();
    assert_eq!(body_of(&removal.request), r#"{"ids":["a"],"namespace":""}"#);
    let written = run(&DataOperation::VectorUpsert(upsert("docs", &["a"]))).unwrap();
    assert_eq!(
        body_of(&written.request),
        r#"{"vectors":[{"id":"a","metadata":{"title":"t"},"values":[0.5,null]}]}"#
    );
    let call = run(&native("json", r#"{"method": "POST", "path": "/query", "body": {"topK": 1}}"#))
        .unwrap();
    assert_eq!(call.request.url, "http://localhost:5081/query?");
    let call = run(&native("json", "{\"method\": \"GET\", \"path\": \"/namespaces/\\t/x\"}"))
        .unwrap();
    assert_eq!(call.request.url, "http://localhost:5081/namespaces/x?");
    assert!(pinecone_native_read_path(&HttpMethod::Get, "/namespaces/a"));
    assert!(!pinecone_native_read_path(&HttpMethod::Get, "/query"));
    assert!(!pinecone_native_read_path(&HttpMethod::Post, "/vectors/upsert"));
    let mut query = catalog(None, "index", 1, None);
    query.cursor = Some("1".to_owned());
    let found = PineconeConnector::catalog_entities(
        &json(r#"{"indexes": [{"name": "c"}, {"name": "a"}, {"name": "b"}]}"#),
        &query,
    )
    .unwrap();
    let page =
        PineconeConnector::catalog_page(&context("r"), &pinecone, &query, found, &vec![9, 9])
            .unwrap();
    assert_eq!(page.entities[0].name, "b");
    assert_eq!(page.next_cursor.as_deref(), Some("2"));
}

#[test]
fn qdrant_reads_scroll_and_filter() {
    assert_eq!(
        canonical(&qdrant_filter(&all_filters()).unwrap()),
        canonical(&json(
            r#"{"must": [
                {"should": [
                    {"must": [{"key": "f", "match": {"value": 1}}]},
                    {"must_not": [{"key": "f", "match": {"value": true}}]}
                ], "min_should": 1},
                {"must_not": [{"must": [{"key": "f", "range": {"lt": 2}}]}]},
                {"must": [{"key": "f", "range": {"lte": 3}}]},
                {"must": [{"key": "f", "range": {"gt": 4}}]},
                {"must": [{"key": "f", "range": {"gte": 5}}]},
                {"must": [{"key": "f", "match": {"any": ["a", "b"]}}]}
            ]}"#
        ))
    );
    assert_eq!(
        canonical(&qdrant_filter(&ids("_id", &["7", FIRST])).unwrap()),
        format!(r#"{{"must":[{{"has_id":[7,"{FIRST}"]}}]}}"#)
    );
    assert!(qdrant_filter(&ids("id", &["x"])).is_err());
    assert!(qdrant_id_from_str("18446744073709551616").is_err());
    assert!(validate_qdrant_id_value(&json("5")).is_ok());
    assert!(validate_qdrant_id_value(&json("-5")).is_err());
    assert!(validate_qdrant_id_value(&json("[5]")).is_err());

    let mut qdrant = profile(SERVER, Product::Qdrant, "qdrant_rest_v1", AuthKind::Anonymous);
    let mut request = read("docs", None, 5);
    request.fields = vec!["title".to_owned()];
    let call = QdrantRestConnector::begin_operation(
        &context("r"),
        &qdrant,
        &DataOperation::Read(request),
    )
    .unwrap();
    assert_eq!(call.request.url, "http://localhost:9200/collections/docs/points/scroll");
    assert_eq!(
        body_of(&call.request),
        r#"{"limit":5,"with_payload":{"include":["title"]},"with_vector":false}"#
    );
    qdrant.policy.max_bytes = 25;
    let answer = json(
        r#"{"result": {"points": [{"id": 1, "payload": {"a": 1}}, {"id": 2}, {"id": 3}],
            "next_page_offset": 9}}"#,
    );
    let finish = |sizes: Vec<u64>| {
        sql_connector::http::qdrant::finish_operation(
            &context("r"),
            &qdrant,
            QdrantReading::Scroll,
            &answer,
            sizes,
            1,
        )
    };
    let cut = finish(vec![10, 10, 10]).unwrap();
    assert_eq!(cut.records.len(), 2);
    assert_eq!(cut.next_cursor.as_deref(), Some("Mw"));
    let whole = finish(vec![5, 5, 5]).unwrap();
    assert_eq!(whole.records.len(), 3);
    assert_eq!(whole.next_cursor.as_deref(), Some("OQ"));
    assert_eq!(
        finish(vec![26, 1, 1]).unwrap_err().message,
        "the first Qdrant point exceeds the configured max_bytes limit"
    );
    let mut next = read("docs", None, 5);
    next.options.cursor = cut.next_cursor;
    let call =
        QdrantRestConnector::begin_operation(&context("r"), &qdrant, &DataOperation::Read(next))
            .unwrap();
    assert!(body_of(&call.request).contains(r#""offset":3"#));
    assert!(qdrant_native_read_path(&HttpMethod::Post, "/collections/docs/points"));
    assert!(qdrant_native_read_path(&HttpMethod::Post, "/collections/docs/points/search/batch"));
    assert!(qdrant_native_read_path(
        &HttpMethod::Post,
        "/collections/docs/points/search/matrix/pairs"
    ));
    assert!(!qdrant_native_read_path(&HttpMethod::Post, "/collections/docs/points/delete"));
    assert!(!qdrant_native_read_path(&HttpMethod::Get, "/collections/docs/snapshots"));
    let description = QdrantRestConnector::describe_entity(
        "docs",
        &json(
            r#"{"result": {"status": "green", "config": {"params": {"vectors":
                {"a": {"size": 4, "distance": "Dot"}, "b": {"size": 8}}}}}}"#,
        ),
    )
    .unwrap();
    assert_eq!(description.fields.len(), 2);
    assert!(matches!(description.fields[1].get("dimension"), Some(DbValue::Int64(8))));
    assert!(matches!(description.metadata.get("points_count"), Some(DbValue::Null)));
    assert!(QdrantRestConnector::connection_info(&json(r#"{"title": "Qdrant - x"}"#)).is_ok());
    assert!(QdrantRestConnector::connection_info(&json("{}")).is_err());
}

#[test]
fn splunk_searches_only_read() {
    for accepted in [
        "search index=main | stats count",
        "search \"| delete\"",
        "search 'a|b' | where x=\"`y`\"",
        "  [ search x ] | table y",
    ] {
        assert!(validate_read_only_spl(accepted).is_ok());
    }
    for denied in [
        "search x | delete",
        "search x | DELETE ",
        "search x |outputlookup(foo)",
        "collect index=x",
        "search x | [ sendemail to=y",
        "search `macro`",
        "search \"a\\\\\" | script x",
    ] {
        assert_eq!(
            validate_read_only_spl(denied).unwrap_err().category,
            ErrorCategory::PermissionDenied
        );
    }
    assert_eq!(
        validate_read_only_spl("search x | delete").unwrap_err().message,
        "SPL command delete is not allowed in a read operation"
    );
    assert_eq!(
        validate_read_only_spl("search \"open").unwrap_err().message,
        "SPL query contains an unterminated quoted string"
    );
    assert!(validate_read_only_spl("search \"a\\\" | delete\"").is_ok());
}

#[test]
fn splunk_reads_become_queries() {
    assert_eq!(
        spl_filter(&all_filters()).unwrap(),
        r#"((f=1 OR f!=true) AND NOT (f<2) AND f<=3 AND f>4 AND f>=5 AND (f="a" OR f="b"))"#
    );
    assert_eq!(spl_filter(&contains()).unwrap(), r#"f="*a\"b*""#);
    let bad = Filter::Eq { field: "a b".to_owned(), value: DbValue::Null };
    assert_eq!(spl_filter(&bad).unwrap_err().message, "invalid Splunk field name");
    let mut request = read("main", Some(ids("host", &["a"])), 2);
    request.fields = vec!["host".to_owned(), "_time".to_owned()];
    request.options.sort = vec![
        SortField { field: "_time".to_owned(), direction: SortDirection::Desc },
        SortField { field: "host".to_owned(), direction: SortDirection::Asc },
    ];
    assert_eq!(
        splunk_read_spl(&request, 2).unwrap(),
        r#"search index="main" (host="a") | sort 0 -_time,+host | fields host,_time | head 3"#
    );
    let splunk = profile(SERVER, Product::Splunk, "splunk_rest_hec", AuthKind::ApiKey);
    let call = SplunkConnector::begin_operation(
        &context("r"),
        &splunk,
        &DataOperation::Read(request),
        1_500,
    )
    .unwrap();
    match &call.request.body {
        HttpBody::Form(form) => {
            assert_eq!(form[1], ("exec_mode".to_owned(), "oneshot".to_owned()));
            assert_eq!(form[3], ("count".to_owned(), "3".to_owned()));
            assert_eq!(form[4], ("max_time".to_owned(), "2".to_owned()));
        }
        other => panic!("unexpected body {other:?}"),
    }
    assert_eq!(call.request.timeout_ms, Some(1_500));
    let answer = json(r#"{"results": [{"a": 1}, {"a": 2}, {"a": 3}]}"#);
    let result = sql_connector::http::splunk::finish_operation(
        &context("r"),
        &splunk,
        SplunkReading::Search { limit: 2 },
        &answer,
        vec![9, 9],
        1,
    )
    .unwrap();
    assert_eq!(result.records.len(), 2);
    assert!(result.truncated);

    let search = |query: &str| {
        splunk_search_request(&SearchRequest {
            target: "main".to_owned(),
            query: json(query),
            options: options(5),
        })
    };
    assert_eq!(
        search(r#""error OR fail""#).unwrap().spl,
        r#"search index="main" | search error OR fail"#
    );
    let timed = search(r#"{"spl": "x", "earliest_time": "-1h"}"#).unwrap();
    assert_eq!(timed.earliest.as_deref(), Some("-1h"));
    assert!(timed.latest.is_none());
    for refused in [r#""x | delete""#, r#""  ""#, r#""[x]""#, r#"{"spl": 5}"#, "5"] {
        assert!(search(refused).is_err());
    }
}

#[test]
fn splunk_catalogs_are_read_once() {
    let splunk = profile(SERVER, Product::Splunk, "splunk_rest_hec", AuthKind::ApiKey);
    let names: Vec<String> = (0..250)
        .map(|n| if n % 120 == 0 { format!("audit-{n}") } else { format!("main-{n}") })
        .collect();
    let wanted: Vec<String> =
        names.iter().filter(|name| name.starts_with("audit")).cloned().collect();
    let mut found: Vec<String> = Vec::new();
    let mut cursor: Option<String> = None;
    let mut pages = 0;
    let mut answers = 0;
    loop {
        let query = catalog(Some("audit"), "index", 2, cursor);
        let mut walk = begin_catalog(&context("r"), &splunk, &query).unwrap();
        while let Some(request) = walk.next_request(&splunk).unwrap() {
            let count: usize = request.query[1].1.parse().unwrap();
            let offset: usize = request.query[2].1.parse().unwrap();
            let entries: Vec<String> = names
                .iter()
                .skip(offset)
                .take(count)
                .map(|name| format!(r#"{{"name": "{name}"}}"#))
                .collect();
            let listed = entries.join(",");
            walk.received(&json(&format!(
                r#"{{"entry": [{listed}], "paging": {{"total": 250}}}}"#
            )))
            .unwrap();
            answers += 1;
        }
        let sizes: Vec<u64> = walk.found.iter().map(|_| 60).collect();
        let page = walk.finish(&context("r"), &splunk, &query, &sizes).unwrap();
        assert!(page.entities.len() <= 2);
        found.extend(page.entities.iter().map(|entity| entity.name.clone()));
        pages += 1;
        cursor = page.next_cursor;
        if cursor.is_none() {
            break;
        }
    }
    assert_eq!(found, wanted);
    assert_eq!(found, vec!["audit-0", "audit-120", "audit-240"]);
    assert_eq!(pages, 2);
    assert_eq!(answers, 4);
}

#[test]
fn splunk_results_show_their_raw_event() {
    let merged = splunk_result_record(&json(r#"{"host": "a", "_raw": "{\"host\": \"b\", \"n\": 5}"}"#));
    assert_eq!(text_in(&merged, "host"), Some("a"));
    assert!(matches!(merged.get("n"), Some(DbValue::Int64(5))));
    let plain = splunk_result_record(&json(r#"{"host": "a", "_raw": "not json"}"#));
    assert_eq!(plain.len(), 2);
    let listed = splunk_result_record(&json(r#"{"_raw": "[1]"}"#));
    assert_eq!(listed.len(), 1);
    let info = SplunkConnector::connection_info(
        &json(r#"{"entry": [{"content": {"version": "9.1", "server_name": "s"}}]}"#),
        false,
    )
    .unwrap();
    assert_eq!(info.server_identity.as_deref(), Some("s"));
    assert_eq!(info.warnings.len(), 1);
    for incomplete in [
        "{}",
        r#"{"entry": []}"#,
        r#"{"entry": [{"content": {"version": ""}}]}"#,
        r#"{"entry": [{"content": {"version": "9"}}]}"#,
        r#"{"entry": {"1": {"content": {"version": "9", "serverName": "s"}}}}"#,
    ] {
        let error = SplunkConnector::connection_info(&json(incomplete), true).unwrap_err();
        assert_eq!(error.code.as_deref(), Some("product_mismatch"));
    }
    let keyed = json(r#"{"entry": {"0": {"content": {"version": "9", "serverName": "s"}}}}"#);
    let info = SplunkConnector::connection_info(&keyed, true).unwrap();
    assert_eq!(info.product_version.as_deref(), Some("9"));
    let described = SplunkConnector::describe_entity("main", &keyed).unwrap();
    assert_eq!(text_in(&described.metadata, "version"), Some("9"));
    let listed = json(r#"{"entry": [{"content": {"maxTime": "x"}}, {}]}"#);
    let described = SplunkConnector::describe_entity("main", &listed).unwrap();
    assert_eq!(text_in(&described.metadata, "maxTime"), Some("x"));
    assert_eq!(
        SplunkConnector::describe_entity("main", &json(r#"{"entry": []}"#)).unwrap_err().message,
        "Splunk index description omitted its entry"
    );
}

#[test]
fn pointers_step_into_members_and_items() {
    let document = json(r#"{"a": [{"b": 1}, {"~": 2}], "x/y": {"01": 3, "~1": 4}, "": 5}"#);
    let found = |pointer: &str| document.pointer(pointer).map(canonical);
    assert_eq!(found("/a/0/b").as_deref(), Some("1"));
    assert_eq!(found("/a/1/~0").as_deref(), Some("2"));
    assert_eq!(found("/a/1/~").as_deref(), Some("2"));
    assert_eq!(found("/x~1y/01").as_deref(), Some("3"));
    assert_eq!(found("/x~1y/~01").as_deref(), Some("4"));
    assert_eq!(found("/").as_deref(), Some("5"));
    assert_eq!(found("").as_deref(), Some(canonical(&document).as_str()));
    for nowhere in ["a", "/a/2", "/a/00", "/a/+0", "/a/-", "/a/", "/a/b", "/a/0/b/0", "/x"] {
        assert_eq!(found(nowhere), None);
    }
}

fn weaviate() -> ConnectionProfile {
    profile(SERVER, Product::Weaviate, "weaviate_rest_v1", AuthKind::Anonymous)
}

fn weaviate_plan(profile: &ConnectionProfile, operation: &DataOperation) -> WeaviatePlan {
    WeaviateConnector::begin_operation(&context("r"), profile, operation).unwrap()
}

#[test]
fn weaviate_listings_follow_each_other() {
    let mut profile = weaviate();
    profile.options.push(("tenant".to_owned(), Json::Text("t".to_owned())));
    let mut request = read("Article", None, 2);
    request.options.cursor = Some(FIRST.to_owned());
    let list = match weaviate_plan(&profile, &DataOperation::Read(request)) {
        WeaviatePlan::List(list) => list,
        other => panic!("unexpected plan {other:?}"),
    };
    let query: Vec<String> =
        list.request.query.iter().map(|(name, value)| format!("{name}={value}")).collect();
    assert_eq!(
        query,
        [
            "class=Article".to_owned(),
            "limit=3".to_owned(),
            "include=vector".to_owned(),
            format!("after={FIRST}"),
            "tenant=t".to_owned(),
        ]
    );
    let answer = json(&format!(
        r#"{{"objects": [{{"id": "{FIRST}", "properties": {{"a": 1}}}}, {{"id": "{SECOND}"}}, {{}}]}}"#
    ));
    assert_eq!(read_list(&answer, list.limit, &list.fields).unwrap().len(), 2);
    let page =
        finish_list(&context("r"), &profile, &answer, 2, &list.fields, vec![5, 5], 1).unwrap();
    assert_eq!(page.records.len(), 2);
    assert_eq!(page.next_cursor.as_deref(), Some(SECOND));
    assert!(page.truncated);
    let mut bad = read("Article", None, 2);
    bad.options.cursor = Some("x".to_owned());
    let error = WeaviateConnector::begin_operation(&context("r"), &profile, &DataOperation::Read(bad));
    assert_eq!(error.unwrap_err().message, "Weaviate object ids must be UUIDs");
}

#[test]
fn weaviate_fetches_stop_at_the_byte_limit() {
    let profile = weaviate();
    let mut request = read("Article", Some(ids("id", &[FIRST, SECOND, FIRST])), 2);
    request.fields = vec!["title".to_owned()];
    let mut fetch = match weaviate_plan(&profile, &DataOperation::Read(request)) {
        WeaviatePlan::Fetch(fetch) => fetch,
        other => panic!("unexpected plan {other:?}"),
    };
    assert!(fetch.truncated);
    assert_eq!(fetch.ids.len(), 2);
    let request = fetch.next_request(&profile).unwrap().unwrap();
    assert_eq!(request.url, format!("http://localhost:9200/v1/objects/Article/{FIRST}?"));
    assert!(request.query.is_empty());
    let refused = ConnectorError::new(ErrorCategory::PermissionDenied, "closed");
    assert_eq!(fetch.failed(refused).unwrap_err().message, "closed");
    assert_eq!(fetch.next, 0);
    fetch.failed(ConnectorError::new(ErrorCategory::NotFound, "absent")).unwrap();
    assert!(fetch.next_request(&profile).unwrap().unwrap().url.contains(SECOND));
    let object = json(&format!(r#"{{"id": "{SECOND}", "properties": {{"title": "t", "n": 1}}}}"#));
    let record = sql_connector::http::weaviate_query::read_object(&object, &fetch.fields);
    assert_eq!(record.len(), 2);
    fetch.received(record, 30, 30);
    assert!(fetch.next_request(&profile).unwrap().is_none());
    let result = fetch.finish(&context("r"), &profile, 1).unwrap();
    assert_eq!(result.records.len(), 1);
    assert!(result.truncated);

    let mut fetch =
        match weaviate_plan(&profile, &DataOperation::Read(read("Article", Some(ids("id", &[FIRST])), 2))) {
            WeaviatePlan::Fetch(fetch) => fetch,
            other => panic!("unexpected plan {other:?}"),
        };
    fetch.received(DbRecord::new(), 31, 30);
    assert!(fetch.next_request(&profile).unwrap().is_none());
    assert_eq!(
        fetch.finish(&context("r"), &profile, 1).unwrap_err().message,
        "the first Weaviate object exceeds the configured max_bytes limit"
    );
}

#[test]
fn weaviate_upserts_look_before_they_write() {
    let profile = weaviate();
    let begin = || match weaviate_plan(
        &profile,
        &DataOperation::VectorUpsert(upsert("Article", &[FIRST, SECOND])),
    ) {
        WeaviatePlan::Upsert(upsert) => upsert,
        other => panic!("unexpected plan {other:?}"),
    };
    let mut write = begin();
    let look = write.next_request(&profile).unwrap().unwrap();
    assert!(matches!(look.method, HttpMethod::Head));
    write.looked(204).unwrap();
    assert_eq!(write.phase, UpsertPhase::Replace);
    let replace = write.next_request(&profile).unwrap().unwrap();
    assert!(matches!(replace.method, HttpMethod::Put));
    assert_eq!(
        body_of(&replace),
        format!(
            r#"{{"class":"Article","id":"{FIRST}","properties":{{"title":"t"}},"vector":[0.5,null]}}"#
        )
    );
    write.written();
    write.looked(404).unwrap();
    let create = write.next_request(&profile).unwrap().unwrap();
    assert!(matches!(create.method, HttpMethod::Post));
    assert_eq!(create.url, "http://localhost:9200/v1/objects");
    let failed = write.failed(ConnectorError::new(ErrorCategory::Conflict, "exists"));
    assert_eq!(failed.category, ErrorCategory::UnknownOutcome);
    write.written();
    assert!(write.next_request(&profile).unwrap().is_none());
    assert_eq!(write.finish(&context("r"), &profile, 1).unwrap().metrics.affected, 2);

    let mut first = begin();
    assert_eq!(first.looked(403).unwrap_err().category, ErrorCategory::PermissionDenied);
    let conflict = first.failed(ConnectorError::new(ErrorCategory::Conflict, "exists"));
    assert_eq!(conflict.category, ErrorCategory::Conflict);
    let protocol = first.failed(ConnectorError::new(ErrorCategory::Protocol, "odd"));
    assert_eq!(protocol.category, ErrorCategory::UnknownOutcome);
    first.looked(200).unwrap();
    first.written();
    assert_eq!(first.looked(500).unwrap_err().category, ErrorCategory::UnknownOutcome);
}

#[test]
fn weaviate_deletes_count_what_was_removed() {
    let profile = weaviate();
    let begin = || match weaviate_plan(&profile, &delete("Article", ids("id", &[FIRST, SECOND]))) {
        WeaviatePlan::Delete(delete) => delete,
        other => panic!("unexpected plan {other:?}"),
    };
    let mut removal = begin();
    let request = removal.next_request(&profile).unwrap().unwrap();
    assert!(matches!(request.method, HttpMethod::Delete));
    removal.answered(204).unwrap();
    removal.answered(404).unwrap();
    assert!(removal.next_request(&profile).unwrap().is_none());
    assert_eq!(removal.finish(&context("r"), &profile, 1).unwrap().metrics.affected, 1);
    let mut absent = begin();
    absent.answered(404).unwrap();
    absent.answered(404).unwrap();
    assert_eq!(
        absent.finish(&context("r"), &profile, 1).unwrap_err().category,
        ErrorCategory::NotFound
    );
    let mut started = begin();
    assert_eq!(started.answered(500).unwrap_err().category, ErrorCategory::Unavailable);
    started.answered(200).unwrap();
    assert_eq!(started.answered(500).unwrap_err().category, ErrorCategory::UnknownOutcome);
    let bad = WeaviateConnector::begin_operation(
        &context("r"),
        &profile,
        &delete("Article", ids("id", &["x"])),
    );
    assert_eq!(bad.unwrap_err().message, "Weaviate object ids must be UUIDs");
}

#[test]
fn weaviate_native_requests_only_read() {
    assert!(weaviate_native_read_path(&HttpMethod::Get, "/v1/objects/Article"));
    assert!(!weaviate_native_read_path(&HttpMethod::Post, "/v1/objects"));
    let profile = weaviate();
    let run = |language: &str, statement: &str| {
        WeaviateConnector::begin_operation(&context("r"), &profile, &native(language, statement))
    };
    assert!(matches!(
        run("graphql", "{ Get { Article { title } } }"),
        Ok(WeaviatePlan::Native(_, true))
    ));
    assert!(matches!(
        run("json", r#"{"method": "GET", "path": "/v1/meta"}"#),
        Ok(WeaviatePlan::Native(_, false))
    ));
    assert_eq!(
        run("json", r#"{"method": "POST", "path": "/v1/graphql", "body": {}}"#)
            .unwrap_err()
            .message,
        "native Weaviate GraphQL request requires a query string"
    );
    assert_eq!(
        run("json", r#"{"method": "POST", "path": "/v1/graphql", "body": {"query": "{"}}"#)
            .unwrap_err()
            .message,
        "native Weaviate GraphQL request contains an invalid query"
    );
    assert_eq!(
        run(
            "json",
            r#"{"method": "GET", "path": "/v1/graphql", "query": {"query": "mutation { x }"}}"#
        )
        .unwrap_err()
        .category,
        ErrorCategory::PermissionDenied
    );
    let description = WeaviateConnector::describe_entity(
        "Article",
        &json(r#"{"description": "d", "properties": [{"name": "title"}], "vectorizer": "none"}"#),
    );
    assert_eq!(description.entity.comment.as_deref(), Some("d"));
    assert_eq!(description.fields.len(), 1);
    assert_eq!(text_in(&description.metadata, "vectorizer"), Some("none"));
    let search = VectorSearchRequest {
        target: "Article".to_owned(),
        vector: vec![Double::Finite("0.25".to_owned())],
        top_k: 1,
        filter: Some(json(r#"{"operator": "Equal"}"#)),
        namespace: Some("t".to_owned()),
        include_vectors: true,
    };
    let search = match weaviate_plan(&profile, &DataOperation::VectorSearch(search)) {
        WeaviatePlan::Search(search) => search,
        other => panic!("unexpected plan {other:?}"),
    };
    let request = search.query_request(&profile, &json(r#"{"properties": []}"#)).unwrap();
    assert!(body_of(&request).contains(
        r#"nearVector: {vector: [0.25]}, tenant: \"t\", where: {operator: Equal}, limit: 1"#
    ));
}

#[test]
fn operations_that_no_manifest_names_are_refused() {
    let execute = match native("json", "{}") {
        DataOperation::NativeQuery(request) => DataOperation::NativeExecute(request),
        other => panic!("unexpected operation {other:?}"),
    };
    let limits = context("r");
    let elastic =
        profile(SERVER, Product::Elasticsearch, "elasticsearch_rest", AuthKind::Anonymous);
    let adapter = ElasticsearchConnector::default().inner;
    let mut refusals = vec![(
        adapter.manifest(),
        adapter.begin_operation(&limits, &elastic, &execute, 1_000).unwrap_err(),
    )];
    let milvus = profile(SERVER, Product::Milvus, "milvus_rest_v2", AuthKind::Anonymous);
    refusals.push((
        MilvusRestConnector::default().manifest(),
        MilvusRestConnector::begin_operation(&limits, &milvus, &execute).unwrap_err(),
    ));
    let pinecone = profile(SERVER, Product::Pinecone, "pinecone_2025_10", AuthKind::ApiKey);
    refusals.push((
        PineconeConnector::default().manifest(),
        PineconeConnector::begin_operation(&limits, &pinecone, &execute).unwrap_err(),
    ));
    let qdrant = profile(SERVER, Product::Qdrant, "qdrant_rest_v1", AuthKind::Anonymous);
    refusals.push((
        QdrantRestConnector::default().manifest(),
        QdrantRestConnector::begin_operation(&limits, &qdrant, &execute).unwrap_err(),
    ));
    let splunk = profile(SERVER, Product::Splunk, "splunk_rest_hec", AuthKind::ApiKey);
    refusals.push((
        SplunkConnector::default().manifest(),
        SplunkConnector::begin_operation(&limits, &splunk, &execute, 1_000).unwrap_err(),
    ));
    refusals.push((
        WeaviateConnector::default().manifest(),
        WeaviateConnector::begin_operation(&limits, &weaviate(), &execute).unwrap_err(),
    ));
    for (manifest, error) in refusals {
        assert!(manifest.supports(Capability::Read));
        assert!(!manifest.supports(Capability::NativeExecute));
        assert_eq!(error.category, ErrorCategory::Unsupported);
    }
}

#[test]
fn connection_input_is_checked_before_use() {
    let key = secret(AuthKind::ApiKey, &[("api_key", "k")]);
    let none = secret(AuthKind::Anonymous, &[]);
    let pinecone = profile("http://localhost/", Product::Pinecone, "pinecone_2025_10", AuthKind::ApiKey);
    assert!(PineconeConnector::validate_connection_input(&pinecone, &key).is_ok());
    assert!(PineconeConnector::validate_connection_input(&pinecone, &none).is_err());
    let remote = profile("http://db.example/", Product::Pinecone, "pinecone_2025_10", AuthKind::ApiKey);
    assert_eq!(
        PineconeConnector::validate_connection_input(&remote, &none).unwrap_err().message,
        "Pinecone HTTP endpoints are allowed only on loopback for Pinecone Local"
    );
    let open = profile(SERVER, Product::OpenSearch, "opensearch_rest", AuthKind::ApiKey);
    let adapter = OpenSearchConnector::default().inner;
    assert_eq!(
        adapter.validate_connection_input(&open, &key).unwrap_err().message,
        "OpenSearch does not support Elasticsearch-style API key authentication"
    );
    let mut splunk = profile(SERVER, Product::Splunk, "splunk_rest_hec", AuthKind::ApiKey);
    assert!(SplunkConnector::validate_connection_input(&splunk, &key).is_ok());
    splunk.options.push(("hec_endpoint".to_owned(), Json::Text("?".to_owned())));
    assert_eq!(
        SplunkConnector::validate_connection_input(&splunk, &key).unwrap_err().message,
        "hec_endpoint is not a valid URL"
    );
    let milvus = profile(SERVER, Product::Milvus, "milvus_rest_v2", AuthKind::Anonymous);
    assert!(MilvusRestConnector::validate_connection_input(&milvus, &none).is_ok());
    assert!(MilvusRestConnector::validate_connection_input(&milvus, &key).is_err());
    let qdrant = profile(SERVER, Product::Qdrant, "grpc", AuthKind::Anonymous);
    assert_eq!(
        QdrantRestConnector::validate_connection_input(&qdrant, &none).unwrap_err().message,
        "unsupported api_mode grpc"
    );
    assert!(WeaviateConnector::validate_connection_input(&weaviate(), &none).is_ok());
}
