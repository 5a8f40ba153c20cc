use std::collections::BTreeSet;

use sql_connector::encoding::{read_json, write_json};
use sql_connector::http::common::{bounded_catalog, catalog_fetch_inputs, catalog_page};
use sql_connector::http::elastic::{finish_operation, read_records, ElasticAdapter};
use sql_connector::http::elastic::{ElasticsearchConnector, OpenSearchConnector};
use sql_connector::http::milvus::MilvusRestConnector;
use sql_connector::http::milvus_query::{check_milvus_response, confirmed_milvus_write_count};
use sql_connector::http::pinecone::{
    confirmed_pinecone_upsert_count, PineconeConnector, PineconeStart,
};
use sql_connector::http::pinecone_host::{host_source, validate_data_url, HostSource};
use sql_connector::http::qdrant::QdrantRestConnector;
use sql_connector::http::qdrant_query::ensure_qdrant_write_completed;
use sql_connector::http::splunk::{
    begin_catalog, ensure_hec_healthy, ensure_hec_success, SplunkConnector,
};
use sql_connector::http::transport::{
    admit_chunk, admit_length, response_body_limit, HttpBody, HttpMethod,
    HttpRequest,
};
use sql_connector::http::weaviate::{read_graphql, WeaviateConnector, WeaviatePlan};
use sql_connector::model::{
    AuthKind, Capability, CatalogEntity, CatalogQuery, ConnectionPolicy, ConnectionProfile,
    ConnectorContext, ConnectorError, ConnectorManifest, ConnectorStatus, DataOperation,
    ErrorCategory, Endpoint, Filter, InsertRequest, NativeRequest, Product, QueryOptions, ReadRequest,
    SearchRequest, SecretMaterial, SortDirection, SortField, TextFields, TlsConfig, VectorPoint,
    VectorSearchRequest, VectorUpsertRequest,
};
use sql_connector::request::{
    classify_operation_error, interrupted_error, ActiveRequests, Transport,
};
use sql_connector::value::{DbRecord, DbValue, Double, Json};

fn endpoint(text: &str) -> Endpoint {
    let url = url::Url::parse(text).expect("URL is valid");
    let owned = |part: Option<&str>| part.map(str::to_owned);
    Endpoint {
        text: url.to_string(),
        scheme: url.scheme().to_owned(),
        host: owned(url.host_str()),
        port: url.port(),
        path: url.path().to_owned(),
        username: url.username().to_owned(),
        password: owned(url.password()),
        query: owned(url.query()),
        fragment: owned(url.fragment()),
        cannot_be_a_base: url.cannot_be_a_base(),
    }
}

fn profile(address: &str, product: Product, api_mode: &str, auth_kind: AuthKind) -> ConnectionProfile {
    ConnectionProfile {
        product,
        api_mode: api_mode.to_owned(),
        endpoint: endpoint(address),
        database: None,
        auth_kind,
        tls: TlsConfig {
            enabled: false,
            verify_server_certificate: true,
            server_name: None,
            ca_certificate_ref: None,
            client_certificate_ref: None,
        },
        policy: ConnectionPolicy {
            max_rows: 100,
            max_bytes: 2 * 1024 * 1024,
            timeout_ms: 5_000,
            max_affected: 100,
            allow_native_read: true,
            allow_native_write: false,
        },
        options: Vec::new(),
    }
}

fn context(request_id: &str) -> ConnectorContext {
    ConnectorContext {
        request_id: request_id.to_owned(),
        max_rows: 100,
        max_bytes: 2 * 1024 * 1024,
    }
}

fn secret(kind: AuthKind, fields: &[(&str, &str)]) -> SecretMaterial {
    let mut list = TextFields::new();
    for (name, value) in fields {
        list.insert((*name).to_owned(), (*value).to_owned());
    }
    SecretMaterial { kind, fields: list }
}

fn json(text: &str) -> Json {
    read_json(text.as_bytes()).expect("text is JSON")
}

fn canonical(document: &Json) -> String {
    write_json(document).expect("document can be written")
}

fn body_of(request: &HttpRequest) -> String {
    match &request.body {
        HttpBody::Json(document) => canonical(document),
        HttpBody::Text { text, .. } => text.clone(),
        HttpBody::Form(fields) => format!("{fields:?}"),
        HttpBody::Empty => String::new(),
    }
}

fn text_in<'a>(record: &'a DbRecord, name: &str) -> Option<&'a str> {
    match record.get(name) {
        Some(DbValue::String(text)) => Some(text.as_str()),
        _ => None,
    }
}

fn options(limit: u32) -> QueryOptions {
    QueryOptions { limit, cursor: None, sort: Vec::new(), timeout_ms: None }
}

fn catalog(pattern: Option<&str>, namespace: &str, limit: u32, cursor: Option<String>) -> CatalogQuery {
    CatalogQuery {
        pattern: pattern.map(str::to_owned),
        namespace: Some(namespace.to_owned()),
        limit,
        cursor,
    }
}

fn native_request(language: &str, statement: &str) -> NativeRequest {
    NativeRequest {
        language: language.to_owned(),
        statement: statement.to_owned(),
        parameters: DbRecord::new(),
        positional_parameters: Vec::new(),
        max_affected: None,
    }
}

fn sizes(records: &[DbRecord]) -> Vec<u64> {
    records.iter().map(|_| 40).collect()
}

fn numbers(list: &[&str]) -> Vec<Double> {
    list.iter().map(|text| Double::Finite((*text).to_owned())).collect()
}

const SERVER: &str = "http://127.0.0.1:9200/";

#[test]
fn response_requires_an_explicit_zero_success_code() {
    check_milvus_response(&json(r#"{"code": 0, "data": {}}"#)).expect("code zero confirms success");

    let missing = check_milvus_response(&json(r#"{"data": {}}"#))
        .expect_err("a missing code is not a successful response");
    assert_eq!(missing.category, ErrorCategory::Protocol);
    assert_eq!(missing.code.as_deref(), Some("product_mismatch"));

    let partition_not_found = check_milvus_response(&json(r#"{"code": 200}"#))
        .expect_err("Milvus business code 200 is not HTTP success");
    assert_eq!(partition_not_found.code.as_deref(), Some("200"));
}

#[test]
fn batch_write_requires_the_expected_affected_count() {
    assert_eq!(
        confirmed_milvus_write_count(
            &json(r#"{"data": {"insertCount": 2}}"#),
            "/data/insertCount",
            2,
            "insert",
        )
        .expect("the full batch is confirmed"),
        2
    );

    let partial = confirmed_milvus_write_count(
        &json(r#"{"data": {"insertCount": 1}}"#),
        "/data/insertCount",
        2,
        "insert",
    )
    .expect_err("a partial count cannot report batch success");
    assert_eq!(partial.category, ErrorCategory::UnknownOutcome);
}

#[test]
fn upsert_requires_the_full_confirmed_count() {
    assert_eq!(
        confirmed_pinecone_upsert_count(&json(r#"{"upsertedCount": 2}"#), 2)
            .expect("the full batch is confirmed"),
        2
    );
    let partial = confirmed_pinecone_upsert_count(&json(r#"{"upsertedCount": 1}"#), 2)
        .expect_err("a partial count cannot report batch success");
    assert_eq!(partial.category, ErrorCategory::UnknownOutcome);
}

#[test]
fn synchronous_writes_require_a_completed_result() {
    ensure_qdrant_write_completed(&json(
        r#"{"status": "ok", "result": {"status": "completed"}}"#,
    ))
    .unwrap();
    for status in ["acknowledged", "wait_timeout"] {
        let answer = format!(r#"{{"status": "ok", "result": {{"status": "{status}"}}}}"#);
        let error = ensure_qdrant_write_completed(&json(&answer)).unwrap_err();
        assert_eq!(error.category, ErrorCategory::UnknownOutcome);
    }
}

#[test]
fn hec_requires_an_explicit_zero_success_code() {
    ensure_hec_success(&json(r#"{"text": "Success", "code": 0}"#))
        .expect("code zero confirms success");

    let missing = ensure_hec_success(&json(r#"{"text": "Success"}"#))
        .expect_err("a missing code cannot confirm a write");
    assert_eq!(missing.category, ErrorCategory::UnknownOutcome);

    let rejected = ensure_hec_success(&json(r#"{"text": "Token disabled", "code": 1}"#))
        .expect_err("a nonzero code rejects the write");
    assert_eq!(rejected.category, ErrorCategory::Protocol);
    assert_eq!(rejected.code.as_deref(), Some("1"));

    ensure_hec_healthy(&json(r#"{"text": "HEC is healthy", "code": 17}"#))
        .expect("code 17 confirms a healthy HEC endpoint");
    let unhealthy = ensure_hec_healthy(&json(r#"{"text": "HEC is unhealthy", "code": 18}"#))
        .expect_err("an unhealthy HEC endpoint must reject connection testing");
    assert_eq!(unhealthy.category, ErrorCategory::Unavailable);
    assert!(unhealthy.retryable);
}

#[test]
fn catalog_page_requires_an_extra_entity_for_a_next_cursor() {
    let mut context = context("catalog-page");
    context.max_rows = 1;
    let mut profile = profile(
        "http://localhost/",
        Product::Qdrant,
        "qdrant_rest_v1",
        AuthKind::Anonymous,
    );
    profile.policy.max_rows = 1;
    let query = CatalogQuery { pattern: None, namespace: None, limit: 1, cursor: None };
    let fetch = catalog_fetch_inputs(&context, &profile, &query).unwrap();
    assert_eq!(fetch.context_rows, 2);
    assert_eq!(fetch.policy_rows, 2);
    assert_eq!(fetch.limit, 2);

    let entity = |name: &str| CatalogEntity {
        id: name.into(),
        namespace: None,
        name: name.into(),
        kind: "collection".into(),
        comment: None,
    };
    let final_page = catalog_page(&context, &profile, &query, vec![entity("one")]).unwrap();
    assert!(final_page.next_cursor.is_none());
    let continued =
        catalog_page(&context, &profile, &query, vec![entity("one"), entity("two")]).unwrap();
    assert_eq!(continued.entities.len(), 1);
    assert!(continued.next_cursor.is_some());
    assert_eq!(continued.next_cursor.as_deref(), Some("1"));
}

#[test]
fn manifests_are_experimental_and_do_not_claim_native_writes() {
    let manifests: Vec<ConnectorManifest> = vec![
        ElasticsearchConnector::default().inner.manifest(),
        OpenSearchConnector::default().inner.manifest(),
        SplunkConnector::default().manifest(),
        PineconeConnector::default().manifest(),
        MilvusRestConnector::default().manifest(),
        QdrantRestConnector::default().manifest(),
        WeaviateConnector::default().manifest(),
    ];
    let mut ids = BTreeSet::new();
    for manifest in manifests {
        assert_eq!(manifest.status, ConnectorStatus::Experimental);
        assert!(manifest.capabilities.contains(&Capability::TestConnection));
        assert!(manifest.supports(Capability::TestConnection));
        assert!(!manifest.capabilities.contains(&Capability::NativeExecute));
        assert!(ids.insert(manifest.id));
        if manifest.product == Product::OpenSearch {
            assert!(!manifest.auth_kinds.contains(&AuthKind::ApiKey));
        }
    }
}

#[test]
fn elastic_read_maps_dsl_auth_hits_and_cursor() {
    let profile = profile(
        SERVER,
        Product::Elasticsearch,
        "elasticsearch_rest",
        AuthKind::UsernamePassword,
    );
    let context = context("elastic-read");
    let secret = secret(
        AuthKind::UsernamePassword,
        &[("username", "alice"), ("password", "secret")],
    );
    let adapter = ElasticsearchConnector::default().inner;
    adapter.validate(&profile).unwrap();
    let client = ElasticAdapter::client(&profile, &secret).unwrap();
    assert_eq!(client.headers.get("authorization"), Some("Basic YWxpY2U6c2VjcmV0"));

    let operation = DataOperation::Read(ReadRequest {
        target: "books".to_owned(),
        fields: Vec::new(),
        filter: Some(Filter::Eq {
            field: "status".to_owned(),
            value: DbValue::String("open".to_owned()),
        }),
        options: QueryOptions {
            limit: 2,
            cursor: None,
            sort: vec![SortField { field: "created".to_owned(), direction: SortDirection::Asc }],
            timeout_ms: None,
        },
    });
    let call = adapter.begin_operation(&context, &profile, &operation, 5_000).unwrap();
    assert!(matches!(call.request.method, HttpMethod::Post));
    assert_eq!(call.request.url, "http://127.0.0.1:9200/books/_search");
    assert_eq!(call.request.timeout_ms, Some(5_000));
    assert_eq!(
        body_of(&call.request),
        canonical(&json(
            r#"{"query": {"term": {"status": "open"}}, "size": 3, "sort": [{"created": "asc"}]}"#
        ))
    );

    let answer = json(
        r#"{"hits": {"hits": [
            {"_id": "book-1", "_index": "books", "_source": {"title": "Rust"}, "sort": [7]},
            {"_id": "book-2", "_index": "books", "_source": {"title": "Databases"}, "sort": [8]},
            {"_id": "book-3", "_index": "books", "_source": {"title": "Search"}, "sort": [9]}
        ]}}"#,
    );
    let found = read_records(call.reading, &answer).unwrap();
    let result =
        finish_operation(&context, &profile, call.reading, &answer, sizes(&found), 3).unwrap();
    assert_eq!(text_in(&result.records[0], "title"), Some("Rust"));
    assert_eq!(text_in(&result.records[0], "_id"), Some("book-1"));
    assert_eq!(result.records.len(), 2);
    assert!(result.records[0].get("sort").is_none());
    assert!(result.truncated);
    assert!(result.next_cursor.is_some());

    let continued = DataOperation::Read(ReadRequest {
        target: "books".to_owned(),
        fields: Vec::new(),
        filter: None,
        options: QueryOptions {
            limit: 2,
            cursor: result.next_cursor,
            sort: vec![SortField { field: "created".to_owned(), direction: SortDirection::Asc }],
            timeout_ms: None,
        },
    });
    let call = adapter.begin_operation(&context, &profile, &continued, 5_000).unwrap();
    assert!(body_of(&call.request).contains(r#""search_after":[8]"#));
}

#[test]
fn opensearch_accepts_anonymous_and_verifies_product_identity() {
    let profile = profile(SERVER, Product::OpenSearch, "opensearch_rest", AuthKind::Anonymous);
    let adapter = OpenSearchConnector::default().inner;
    adapter.validate(&profile).unwrap();
    let client = ElasticAdapter::client(&profile, &secret(AuthKind::Anonymous, &[])).unwrap();
    assert!(client.headers.get("authorization").is_none());
    let request = adapter.test_request(&profile);
    assert!(matches!(request.method, HttpMethod::Get));
    assert_eq!(request.url, SERVER);
    let answer = json(
        r#"{"name": "node-1",
            "version": {"number": "3.2.0", "distribution": "opensearch"},
            "tagline": "The OpenSearch Project: https://opensearch.org/"}"#,
    );
    let info = adapter.connection_info(&answer).unwrap();
    assert_eq!(info.product_version.as_deref(), Some("3.2.0"));
    let mismatch = ElasticsearchConnector::default().inner.connection_info(&answer).unwrap_err();
    assert_eq!(mismatch.code.as_deref(), Some("product_mismatch"));
}

#[test]
fn splunk_hec_uses_splunk_auth_and_native_query_blocks_delete() {
    let mut splunk_profile =
        profile(SERVER, Product::Splunk, "splunk_rest_hec", AuthKind::BearerToken);
    splunk_profile
        .options
        .push(("hec_endpoint".to_owned(), Json::Text(SERVER.to_owned())));
    let splunk_secret = secret(AuthKind::BearerToken, &[("bearer_token", "hec-secret")]);
    let context = context("splunk-insert");
    let client = SplunkConnector::hec_client(&splunk_profile, &splunk_secret).unwrap();
    assert_eq!(client.headers.get("authorization"), Some("Splunk hec-secret"));

    let mut record = DbRecord::new();
    record.insert("message".to_owned(), DbValue::String("hello".to_owned()));
    let operation = DataOperation::Insert(InsertRequest {
        target: "main".to_owned(),
        records: vec![record],
        idempotency_key: None,
    });
    let call =
        SplunkConnector::begin_operation(&context, &splunk_profile, &operation, 5_000).unwrap();
    assert!(matches!(call.request.method, HttpMethod::Post));
    assert_eq!(call.request.url, "http://127.0.0.1:9200/services/collector/event");
    let body = body_of(&call.request);
    assert!(body.contains("\"index\":\"main\""));
    assert!(body.contains("\"message\":\"hello\""));
    let inserted = sql_connector::http::splunk::finish_operation(
        &context,
        &splunk_profile,
        call.reading,
        &json(r#"{"text": "Success", "code": 0}"#),
        Vec::new(),
        1,
    )
    .unwrap();
    assert_eq!(inserted.metrics.affected, 1);

    let rejected = SplunkConnector::begin_operation(
        &context,
        &splunk_profile,
        &DataOperation::NativeQuery(native_request("spl", "search index=main | delete")),
        5_000,
    )
    .expect_err("mutating SPL is rejected");
    assert_eq!(rejected.category, ErrorCategory::PermissionDenied);
}

fn walk_splunk_catalog(cursor: Option<String>) -> (Vec<CatalogEntity>, Option<String>) {
    let splunk_profile = profile(SERVER, Product::Splunk, "splunk_rest_hec", AuthKind::ApiKey);
    let context = context("splunk-catalog");
    let query = catalog(Some("audit"), "index", 1, cursor);
    assert!(!SplunkConnector::is_outside(&query));
    let mut walk = begin_catalog(&context, &splunk_profile, &query).unwrap();
    while let Some(request) = walk.next_request(&splunk_profile).unwrap() {
        assert_eq!(request.url, "http://127.0.0.1:9200/services/data/indexes");
        assert_eq!(request.query[1], ("count".to_owned(), "100".to_owned()));
        assert_eq!(request.query[2].0, "offset");
        let entries = match request.query[2].1.as_str() {
            "0" => r#"[{"name": "main"}, {"name": "history"}]"#,
            "2" => r#"[{"name": "audit-one"}, {"name": "audit-two"}]"#,
            "3" => r#"[{"name": "audit-two"}]"#,
            other => panic!("unexpected offset {other}"),
        };
        let answer = format!(r#"{{"entry": {entries}, "paging": {{"total": 4}}}}"#);
        walk.received(&json(&answer)).unwrap();
    }
    let lengths: Vec<u64> = walk.found.iter().map(|_| 60).collect();
    let page = walk.finish(&context, &splunk_profile, &query, &lengths).unwrap();
    (page.entities, page.next_cursor)
}

#[test]
fn splunk_catalog_filter_advances_by_scanned_entries() {
    let (first, cursor) = walk_splunk_catalog(None);
    assert_eq!(first[0].name, "audit-one");
    assert_eq!(cursor.as_deref(), Some("3"));
    let (second, cursor) = walk_splunk_catalog(cursor);
    assert_eq!(second[0].name, "audit-two");
    assert!(cursor.is_none());
}

#[test]
fn pinecone_2025_10_maps_data_plane_query_and_blocks_control_post() {
    let mut pinecone_profile =
        profile(SERVER, Product::Pinecone, "pinecone_2025_10", AuthKind::ApiKey);
    pinecone_profile
        .options
        .push(("index_host".to_owned(), Json::Text(SERVER.to_owned())));
    pinecone_profile
        .options
        .push(("namespace".to_owned(), Json::Text("tenant-a".to_owned())));
    pinecone_profile.database = Some("docs".to_owned());
    let pinecone_secret = secret(AuthKind::ApiKey, &[("api_key", "pinecone-secret")]);
    let context = context("pinecone-query");
    PineconeConnector::validate(&pinecone_profile).unwrap();
    let client = PineconeConnector::client(&pinecone_profile, &pinecone_secret).unwrap();
    assert_eq!(client.headers.get("api-key"), Some("pinecone-secret"));
    assert_eq!(client.headers.get("x-pinecone-api-version"), Some("2025-10"));

    let run = |operation: &DataOperation, expected: &str, answer: &str| {
        let index =
            match PineconeConnector::begin_operation(&context, &pinecone_profile, operation) {
                Ok(PineconeStart::Index(index)) => index,
                other => panic!("unexpected start {other:?}"),
            };
        let host = match host_source(&pinecone_profile, &index).unwrap() {
            HostSource::Configured(host) => host,
            HostSource::Lookup(request) => panic!("unexpected lookup {request:?}"),
        };
        let base = validate_data_url(&pinecone_profile, &host).unwrap();
        let call =
            PineconeConnector::continue_operation(&context, &pinecone_profile, operation, &base)
                .unwrap();
        assert!(matches!(call.request.method, HttpMethod::Post));
        assert_eq!(call.request.url, "http://127.0.0.1:9200/query");
        assert_eq!(body_of(&call.request), canonical(&json(expected)));
        let answer = json(answer);
        let found = call.reading.records(&answer).unwrap();
        call.reading
            .finish(&context, &pinecone_profile, &answer, &sizes(&found), 1)
            .unwrap()
    };
    let result = run(
        &DataOperation::VectorSearch(VectorSearchRequest {
            target: "docs".to_owned(),
            vector: numbers(&["0.25", "0.75"]),
            top_k: 3,
            filter: None,
            namespace: None,
            include_vectors: false,
        }),
        r#"{"vector": [0.25, 0.75], "topK": 3, "namespace": "tenant-a",
            "includeValues": false, "includeMetadata": true}"#,
        r#"{"matches": [{"id": "doc-1", "score": 0.9, "metadata": {"title": "A"}}],
            "namespace": "tenant-a"}"#,
    );
    assert_eq!(text_in(&result.records[0], "id"), Some("doc-1"));
    let generic = run(
        &DataOperation::Search(SearchRequest {
            target: "docs".to_owned(),
            query: json(r#"{"vector": [0.5, 0.5]}"#),
            options: options(2),
        }),
        r#"{"vector": [0.5, 0.5], "topK": 2, "namespace": "tenant-a"}"#,
        r#"{"matches": [{"id": "doc-2", "score": 0.8}], "namespace": "tenant-a"}"#,
    );
    assert_eq!(text_in(&generic.records[0], "id"), Some("doc-2"));

    let query = catalog(None, "index", 2, None);
    assert!(!PineconeConnector::is_outside(&query));
    let found = PineconeConnector::catalog_entities(
        &json(
            r#"{"indexes": [{"name": "docs", "status": {"state": "Ready"}},
                            {"name": "images", "status": {"state": "Ready"}}]}"#,
        ),
        &query,
    )
    .unwrap();
    assert_eq!(found[0].comment.as_deref(), Some("state=Ready"));
    let page =
        PineconeConnector::catalog_page(&context, &pinecone_profile, &query, found, &vec![90, 90])
            .unwrap();
    assert_eq!(page.entities.len(), 2);
    assert!(page.next_cursor.is_none());

    let rejected = PineconeConnector::begin_operation(
        &context,
        &pinecone_profile,
        &DataOperation::NativeQuery(native_request(
            "pinecone_http",
            r#"{"method": "POST", "path": "/indexes", "body": {}}"#,
        )),
    )
    .expect_err("native control-plane POST is rejected");
    assert_eq!(rejected.category, ErrorCategory::PermissionDenied);
}

#[test]
fn milvus_catalog_and_describe_use_rest_v2_contract() {
    let mut milvus_profile = profile(SERVER, Product::Milvus, "milvus_rest_v2", AuthKind::Anonymous);
    milvus_profile.database = Some("default".to_owned());
    let context = context("milvus-catalog");
    let client =
        MilvusRestConnector::client(&milvus_profile, &secret(AuthKind::Anonymous, &[])).unwrap();
    assert!(client.headers.get("authorization").is_none());

    let request = MilvusRestConnector::list_request(&milvus_profile).unwrap();
    assert!(matches!(request.method, HttpMethod::Post));
    assert_eq!(request.url, "http://127.0.0.1:9200/v2/vectordb/collections/list");
    assert_eq!(request.query, vec![("dbName".to_owned(), "default".to_owned())]);
    let query = catalog(None, "collection", 10, None);
    let found = MilvusRestConnector::catalog_entities(
        &milvus_profile,
        &json(r#"{"code": 0, "data": ["docs"]}"#),
        &query,
    )
    .unwrap();
    let shown = bounded_catalog(&context, &milvus_profile, found, &vec![80], query.limit).unwrap();
    let page = catalog_page(&context, &milvus_profile, &query, shown).unwrap();
    assert_eq!(page.entities[0].id, "docs");
    assert_eq!(page.entities[0].comment.as_deref(), Some("database=default"));

    let request = MilvusRestConnector::describe_request(&milvus_profile, "docs").unwrap();
    assert_eq!(request.url, "http://127.0.0.1:9200/v2/vectordb/collections/describe");
    assert_eq!(
        body_of(&request),
        canonical(&json(r#"{"dbName": "default", "collectionName": "docs"}"#))
    );
    let description = MilvusRestConnector::describe_entity(
        "docs",
        &json(
            r#"{"code": 0, "data": {
                "collectionName": "docs",
                "fields": [{"name": "id", "dataType": "Int64", "isPrimary": true}],
                "partitionsNum": 2,
                "shardsNum": 1}}"#,
        ),
    )
    .unwrap();
    assert_eq!(description.fields.len(), 1);
    assert!(matches!(description.metadata.get("partitionsNum"), Some(DbValue::Int64(2))));
}

#[test]
fn qdrant_upsert_maps_ids_payload_and_api_key() {
    let point_id = "4b39d9be-679a-4c00-8db7-06ad46fe9a3a";
    let qdrant_profile = profile(SERVER, Product::Qdrant, "qdrant_rest_v1", AuthKind::ApiKey);
    let qdrant_secret = secret(AuthKind::ApiKey, &[("api_key", "qdrant-secret")]);
    let context = context("qdrant-upsert");
    let client = QdrantRestConnector::client(&qdrant_profile, &qdrant_secret).unwrap();
    assert_eq!(client.headers.get("api-key"), Some("qdrant-secret"));

    let mut metadata = DbRecord::new();
    metadata.insert("title".to_owned(), DbValue::String("Rust".to_owned()));
    let operation = DataOperation::VectorUpsert(VectorUpsertRequest {
        target: "docs".to_owned(),
        points: vec![VectorPoint {
            id: point_id.to_owned(),
            vector: numbers(&["0.1", "0.2"]),
            metadata,
        }],
        namespace: None,
        idempotency_key: None,
    });
    let call =
        QdrantRestConnector::begin_operation(&context, &qdrant_profile, &operation).unwrap();
    assert!(matches!(call.request.method, HttpMethod::Put));
    assert_eq!(call.request.url, "http://127.0.0.1:9200/collections/docs/points");
    assert_eq!(call.request.query, vec![("wait".to_owned(), "true".to_owned())]);
    assert_eq!(
        body_of(&call.request),
        canonical(&json(&format!(
            r#"{{"points": [{{"id": "{point_id}", "vector": [0.1, 0.2],
                "payload": {{"title": "Rust"}}}}]}}"#
        )))
    );
    let result = sql_connector::http::qdrant::finish_operation(
        &context,
        &qdrant_profile,
        call.reading,
        &json(
            r#"{"result": {"operation_id": 7, "status": "completed"}, "status": "ok", "time": 0.001}"#,
        ),
        Vec::new(),
        1,
    )
    .unwrap();
    assert_eq!(result.metrics.affected, 1);

    let rejected = QdrantRestConnector::begin_operation(
        &context,
        &qdrant_profile,
        &DataOperation::NativeQuery(native_request(
            "qdrant_http",
            r#"{"method": "POST", "path": "/collections/docs/points/batch", "body": {"operations": []}}"#,
        )),
    )
    .expect_err("native Qdrant batch updates are rejected");
    assert_eq!(rejected.category, ErrorCategory::PermissionDenied);
}

#[test]
fn weaviate_search_is_target_scoped_and_native_mutation_is_rejected() {
    let weaviate_profile =
        profile(SERVER, Product::Weaviate, "weaviate_rest_v1", AuthKind::Anonymous);
    let context = context("weaviate-search");
    let operation = DataOperation::Search(SearchRequest {
        target: "Article".to_owned(),
        query: json(r#"{"nearText": {"concepts": ["rust"]}}"#),
        options: options(2),
    });
    let search =
        match WeaviateConnector::begin_operation(&context, &weaviate_profile, &operation).unwrap() {
            WeaviatePlan::Search(search) => search,
            other => panic!("unexpected plan {other:?}"),
        };
    assert_eq!(search.request.url, "http://127.0.0.1:9200/v1/schema/Article");
    let schema = json(
        r#"{"class": "Article", "properties": [{"name": "title", "dataType": ["text"]}]}"#,
    );
    let request = search.query_request(&weaviate_profile, &schema).unwrap();
    assert!(matches!(request.method, HttpMethod::Post));
    assert_eq!(request.url, "http://127.0.0.1:9200/v1/graphql");
    let body = body_of(&request);
    assert!(body.contains("Get { Article"));
    assert!(body.contains("nearText"));
    assert_eq!(
        body,
        r#"{"query":"{ Get { Article(nearText: {concepts: [\"rust\"]}, limit: 2) { title _additional { id distance } } } }"}"#
    );
    let answer = json(
        r#"{"data": {"Get": {"Article": [{
            "title": "Rust",
            "_additional": {"id": "4b39d9be-679a-4c00-8db7-06ad46fe9a3a"}}]}}}"#,
    );
    let found = read_graphql(&answer, Some("Article")).unwrap();
    assert_eq!(text_in(&found[0], "title"), Some("Rust"));
    assert_eq!(text_in(&found[0], "id"), Some("4b39d9be-679a-4c00-8db7-06ad46fe9a3a"));
    assert!(found[0].get("_additional").is_none());

    let rejected = WeaviateConnector::begin_operation(
        &context,
        &weaviate_profile,
        &DataOperation::NativeQuery(native_request(
            "weaviate_graphql",
            "mutation { Delete { Article(id: \"x\") } }",
        )),
    )
    .expect_err("GraphQL mutation is rejected");
    assert_eq!(rejected.category, ErrorCategory::PermissionDenied);
}

#[test]
fn response_body_limit_rejects_oversized_payloads() {
    let limit = response_body_limit(1);
    assert_eq!(limit, 1024 * 1024);
    let error = admit_length(Some(1024 * 1024 + 1), limit)
        .expect_err("oversized HTTP response is rejected");
    assert_eq!(error.category, ErrorCategory::Protocol);
    admit_length(None, limit).unwrap();
    admit_length(Some(1024 * 1024), limit).unwrap();
    admit_chunk(1024, 1024 * 1023, limit).unwrap();
    let error = admit_chunk(1024 * 1024, 1, limit).expect_err("one byte too many is rejected");
    assert_eq!(error.category, ErrorCategory::Protocol);
    assert_eq!(response_body_limit(1_000_000), 4_000_000);
    assert_eq!(response_body_limit(u64::MAX), 32 * 1024 * 1024);
}

#[test]
fn cancellation_classifies_reads_and_writes_differently() {
    assert_eq!(
        interrupted_error(Transport::Http, false, true).category,
        ErrorCategory::Cancelled
    );
    assert_eq!(
        interrupted_error(Transport::Http, true, true).category,
        ErrorCategory::UnknownOutcome
    );
    let expired = interrupted_error(Transport::Http, false, false);
    assert_eq!(expired.category, ErrorCategory::Timeout);
    assert!(expired.retryable);
}

#[test]
fn transport_timeout_does_not_mark_a_write_as_retryable() {
    let error = classify_operation_error(
        ConnectorError::new(ErrorCategory::Timeout, "HTTP write timed out").retryable(true),
        true,
    );
    assert_eq!(error.category, ErrorCategory::UnknownOutcome);
    assert!(!error.retryable);
}

#[test]
fn cancellation_marks_write_outcome_unknown() {
    let cancelled = interrupted_error(Transport::Sql, true, true);
    assert_eq!(cancelled.category, ErrorCategory::UnknownOutcome);
    let internal = classify_operation_error(
        ConnectorError::new(ErrorCategory::Internal, "driver task failed"),
        true,
    );
    assert_eq!(internal.category, ErrorCategory::UnknownOutcome);
    assert!(!internal.retryable);
}

#[test]
fn duplicate_request_does_not_replace_original_cancel_token() {
    let mut active = ActiveRequests::new();
    let first = active.begin("same-id").unwrap();
    let duplicate = active.begin("same-id").expect_err("the first request is still running");
    assert_eq!(duplicate.category, ErrorCategory::Conflict);
    assert_eq!(active.find("same-id"), Some(first));
    active.end("same-id", first);
    assert_eq!(active.find("same-id"), None);
    let second = active.begin("same-id").unwrap();
    active.end("same-id", first);
    assert_eq!(active.find("same-id"), Some(second));
}
