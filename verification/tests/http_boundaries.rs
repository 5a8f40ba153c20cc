use sql_connector::encoding::{read_json, write_json};
use sql_connector::http::auth::{authentication_headers, client_plan, AuthStyle};
use sql_connector::http::common::{
    bounded_page, effective_bytes, effective_rows, ensure_language, extract_ids, finish_result, parse_cursor_offset,
    records_from_generic_json, sort_by_name, validate_affected, validate_graphql_name,
    validate_native_parameters, validate_profile, validate_target, Finish,
};
use sql_connector::http::native::{parse_native_envelope, path_has_prefix};
use sql_connector::http::pinecone::PineconeConnector;
use sql_connector::http::pinecone_host::{
    described_host, find_configured_host, host_source, validate_data_url, validate_pinecone_url,
    HostSource,
};
use sql_connector::http::splunk::SplunkConnector;
use sql_connector::http::transport::{
    api_url, map_http_status, map_transport_error, native_url, read_response, request_timeout_ms,
    HttpBody, HttpMethod, HttpRequest, TransportFailure,
};
use sql_connector::http::weaviate_query::{
    build_get_query, graphql_literal, scalar_fields, validate_read_only_graphql,
    validate_weaviate_id,
};
use sql_connector::model::{
    AuthKind, CatalogEntity, CatalogQuery, ConnectionPolicy, ConnectionProfile, ConnectorContext,
    Endpoint, ErrorCategory, ErrorPhase, Filter, NativeRequest, Product, QueryOptions,
    SecretMaterial, TextFields, TlsConfig, WriteOutcome,
};
use sql_connector::value::{DbRecord, DbValue, Json};

fn endpoint(text: &str) -> Endpoint {
    let url = url::Url::parse(text).expect("URL is valid");
    let owned = |part: Option<&str>| part.map(str::to_owned);
    Endpoint {
        text: url.to_string(),
        scheme: url.scheme().to_owned(),
        host: owned(url.host_str()),
        port: url.port(),
        path: url.path().to_owned(),
        username: url.username().to_owned(),
        password: owned(url.password()),
        query: owned(url.query()),
        fragment: owned(url.fragment()),
        cannot_be_a_base: url.cannot_be_a_base(),
    }
}

fn profile(address: &str, product: Product, api_mode: &str, auth_kind: AuthKind) -> ConnectionProfile {
    ConnectionProfile {
        product,
        api_mode: api_mode.to_owned(),
        endpoint: endpoint(address),
        database: None,
        auth_kind,
        tls: TlsConfig {
            enabled: false,
            verify_server_certificate: true,
            server_name: None,
            ca_certificate_ref: None,
            client_certificate_ref: None,
        },
        policy: ConnectionPolicy {
            max_rows: 100,
            max_bytes: 2 * 1024 * 1024,
            timeout_ms: 5_000,
            max_affected: 100,
            allow_native_read: true,
            allow_native_write: false,
        },
        options: Vec::new(),
    }
}

fn context(request_id: &str) -> ConnectorContext {
    ConnectorContext {
        request_id: request_id.to_owned(),
        max_rows: 100,
        max_bytes: 2 * 1024 * 1024,
    }
}

fn secret(kind: AuthKind, fields: &[(&str, &str)]) -> SecretMaterial {
    let mut list = TextFields::new();
    for (name, value) in fields {
        list.insert((*name).to_owned(), (*value).to_owned());
    }
    SecretMaterial { kind, fields: list }
}

fn json(text: &str) -> Json {
    read_json(text.as_bytes()).expect("text is JSON")
}

fn canonical(document: &Json) -> String {
    write_json(document).expect("document can be written")
}

fn body_of(request: &HttpRequest) -> String {
    match &request.body {
        HttpBody::Json(document) => canonical(document),
        HttpBody::Text { text, .. } => text.clone(),
        HttpBody::Form(fields) => format!("{fields:?}"),
        HttpBody::Empty => String::new(),
    }
}

fn text_in<'a>(record: &'a DbRecord, name: &str) -> Option<&'a str> {
    match record.get(name) {
        Some(DbValue::String(text)) => Some(text.as_str()),
        _ => None,
    }
}

fn options(limit: u32) -> QueryOptions {
    QueryOptions { limit, cursor: None, sort: Vec::new(), timeout_ms: None }
}

fn catalog(pattern: Option<&str>, namespace: &str, limit: u32, cursor: Option<String>) -> CatalogQuery {
    CatalogQuery {
        pattern: pattern.map(str::to_owned),
        namespace: Some(namespace.to_owned()),
        limit,
        cursor,
    }
}

fn qdrant() -> ConnectionProfile {
    profile("http://localhost:6333/", Product::Qdrant, "qdrant_rest_v1", AuthKind::Anonymous)
}

fn authorization(kind: AuthKind, style: AuthStyle, fields: &[(&str, &str)]) -> Option<String> {
    authentication_headers(&secret(kind, fields), style)
        .unwrap()
        .get("authorization")
        .map(str::to_owned)
}

#[test]
fn documents_are_read_and_written_in_the_notation_of_json() {
    let document = json(r#" {"b": [1, -2, 3.50, "x\n"], "a": {"y": null, "x": true}} "#);
    assert_eq!(canonical(&document), r#"{"a":{"x":true,"y":null},"b":[1,-2,3.5,"x\n"]}"#);
    assert!(read_json(b"{").is_none());
    assert!(read_json(b"").is_none());
    let written = Json::Object(vec![
        ("z".to_owned(), Json::Number("1".to_owned())),
        ("a".to_owned(), Json::Text("\u{e9}\"".to_owned())),
        ("z".to_owned(), Json::Number("2".to_owned())),
    ]);
    assert_eq!(canonical(&written), "{\"a\":\"\u{e9}\\\"\",\"z\":2}");
    assert!(write_json(&Json::Number("not a number".to_owned())).is_none());
    assert!(write_json(&Json::Array(vec![Json::Number("0x1".to_owned())])).is_none());
}

#[test]
fn credentials_become_the_header_of_each_product() {
    let user: &[(&str, &str)] = &[("username", "alice"), ("password", "secret")];
    assert_eq!(
        authorization(AuthKind::UsernamePassword, AuthStyle::Standard, user).as_deref(),
        Some("Basic YWxpY2U6c2VjcmV0")
    );
    assert_eq!(
        authorization(AuthKind::ApiKey, AuthStyle::Standard, &[("api_key", "encoded")]).as_deref(),
        Some("ApiKey encoded")
    );
    assert_eq!(
        authorization(AuthKind::ApiKey, AuthStyle::Standard, &[("id", "alice"), ("key", "secret")]).as_deref(),
        Some("ApiKey YWxpY2U6c2VjcmV0")
    );
    assert_eq!(
        authorization(AuthKind::BearerToken, AuthStyle::Standard, &[("token", ""), ("bearer_token", "t")])
            .as_deref(),
        Some("Bearer t")
    );
    assert_eq!(authorization(AuthKind::Anonymous, AuthStyle::Standard, &[]), None);
    assert_eq!(authorization(AuthKind::ClientCertificate, AuthStyle::ApiKeyBearer, &[]), None);
    assert_eq!(
        authorization(AuthKind::ApiKey, AuthStyle::ApiKeyBearer, &[("token", "k")]).as_deref(),
        Some("Bearer k")
    );
    assert_eq!(
        authorization(AuthKind::UsernamePassword, AuthStyle::MilvusBearer, user).as_deref(),
        Some("Bearer alice:secret")
    );
    assert_eq!(
        authorization(
            AuthKind::UsernamePassword,
            AuthStyle::SplunkManagement,
            &[("management_username", "alice"), ("username", "bob"), ("password", "secret")],
        )
        .as_deref(),
        Some("Basic YWxpY2U6c2VjcmV0")
    );
    assert_eq!(
        authorization(AuthKind::ApiKey, AuthStyle::SplunkManagement, &[("api_key", "k")]).as_deref(),
        Some("Bearer k")
    );
    assert_eq!(
        authorization(AuthKind::ApiKey, AuthStyle::SplunkHec, &[("api_key", "k"), ("hec_token", "h")])
            .as_deref(),
        Some("Splunk h")
    );
    let headers =
        authentication_headers(&secret(AuthKind::ApiKey, &[("api_key", "k")]), AuthStyle::OptionalApiKeyHeader)
            .unwrap();
    assert_eq!(headers.get("api-key"), Some("k"));
    assert_eq!(headers.get("authorization"), None);
    assert_eq!(headers.len(), 1);
    assert!(headers.at(0).sensitive);
}

#[test]
fn headers_that_hold_credentials_are_sensitive() {
    let pinecone =
        profile("http://localhost/", Product::Pinecone, "pinecone_2025_10", AuthKind::ApiKey);
    let plan =
        PineconeConnector::client(&pinecone, &secret(AuthKind::ApiKey, &[("api_key", "k")])).unwrap();
    let mut marks: Vec<(String, bool)> = Vec::new();
    for index in 0..plan.headers.len() {
        let header = plan.headers.at(index);
        marks.push((header.name.clone(), header.sensitive));
    }
    marks.sort();
    assert_eq!(
        marks,
        vec![("api-key".to_owned(), true), ("x-pinecone-api-version".to_owned(), false)]
    );
}

#[test]
fn encoded_credentials_may_have_any_characters() {
    for (password, encoded) in [
        ("\n", "Basic dToK"),
        ("\u{7f}x", "Basic dTp/eA=="),
        ("\u{ff}>", "Basic dTrDvz4="),
        ("\u{fbff}", "Basic dTrvr78="),
        ("~~~", "Basic dTp+fn4="),
    ] {
        let value = authorization(
            AuthKind::UsernamePassword,
            AuthStyle::Standard,
            &[("username", "u"), ("password", password)],
        );
        assert_eq!(value, Some(encoded.to_owned()));
    }
    assert_eq!(
        authorization(AuthKind::ApiKey, AuthStyle::Standard, &[("id", "\t\n"), ("key", "\0")])
            .as_deref(),
        Some("ApiKey CQo6AA==")
    );
}

#[test]
fn credentials_that_a_product_cannot_take_are_refused() {
    let refused = authentication_headers(
        &secret(AuthKind::Anonymous, &[]),
        AuthStyle::RequiredApiKeyHeader,
    )
    .unwrap_err();
    assert_eq!(refused.category, ErrorCategory::Unsupported);
    assert_eq!(
        refused.message,
        "authentication kind Anonymous is not supported by this connector"
    );
    let missing = authentication_headers(
        &secret(AuthKind::ApiKey, &[("api_key", "")]),
        AuthStyle::ApiKeyBearer,
    )
    .unwrap_err();
    assert_eq!(missing.message, "credential is missing required field api_key");
    let control = authentication_headers(
        &secret(AuthKind::BearerToken, &[("token", "a\nb")]),
        AuthStyle::Standard,
    )
    .unwrap_err();
    assert_eq!(
        control.message,
        "a credential contains characters that are invalid in an HTTP header"
    );
    let tab = authentication_headers(
        &secret(AuthKind::BearerToken, &[("token", "a\tb\u{e9}")]),
        AuthStyle::Standard,
    )
    .unwrap();
    assert_eq!(tab.get("authorization"), Some("Bearer a\tb\u{e9}"));
}

#[test]
fn clients_keep_to_the_protection_of_the_profile() {
    let anonymous = secret(AuthKind::Anonymous, &[]);
    let none: Vec<(String, String)> = Vec::new();
    let plan = client_plan(&qdrant(), &anonymous, AuthStyle::Standard, &none).unwrap();
    assert!(!plan.https_only);
    assert_eq!(plan.connect_timeout_ms, 5_000);

    let kind = client_plan(
        &qdrant(),
        &secret(AuthKind::ApiKey, &[("api_key", "k")]),
        AuthStyle::Standard,
        &none,
    )
    .unwrap_err();
    assert_eq!(kind.message, "credential kind does not match the connection profile");

    let mut encrypted = qdrant();
    encrypted.tls.enabled = true;
    let scheme = client_plan(&encrypted, &anonymous, AuthStyle::Standard, &none).unwrap_err();
    assert_eq!(
        scheme.message,
        "endpoint scheme must be `https` when tls.enabled is true"
    );

    let mut trusting =
        profile("https://db.example/", Product::Qdrant, "qdrant_rest_v1", AuthKind::Anonymous);
    trusting.tls.enabled = true;
    trusting.policy.timeout_ms = 90_000;
    let plan = client_plan(&trusting, &anonymous, AuthStyle::Standard, &none).unwrap();
    assert!(plan.https_only);
    assert_eq!(plan.connect_timeout_ms, 30_000);
    trusting.tls.server_name = Some("other.example".to_owned());
    let name = client_plan(&trusting, &anonymous, AuthStyle::Standard, &none).unwrap_err();
    assert_eq!(name.category, ErrorCategory::Unsupported);
    trusting.tls.verify_server_certificate = false;
    let verification = client_plan(&trusting, &anonymous, AuthStyle::Standard, &none).unwrap_err();
    assert_eq!(
        verification.message,
        "disabling server certificate verification is not supported"
    );

    let mut certified = profile(
        "https://db.example/",
        Product::Qdrant,
        "qdrant_rest_v1",
        AuthKind::ClientCertificate,
    );
    certified.tls.enabled = true;
    let reference = client_plan(
        &certified,
        &secret(AuthKind::ClientCertificate, &[]),
        AuthStyle::Standard,
        &none,
    )
    .unwrap_err();
    assert_eq!(
        reference.message,
        "client-certificate authentication requires TLS and a client_certificate_ref"
    );
    certified.tls.client_certificate_ref = Some("mine".to_owned());
    let absent = client_plan(
        &certified,
        &secret(AuthKind::ClientCertificate, &[("mine", "certificate")]),
        AuthStyle::Standard,
        &none,
    )
    .unwrap_err();
    assert_eq!(absent.message, "credential is missing required field client_private_key_pem");
    let malformed = client_plan(
        &certified,
        &secret(
            AuthKind::ClientCertificate,
            &[("mine", "certificate"), ("private_key_pem", "key")],
        ),
        AuthStyle::Standard,
        &none,
    )
    .unwrap_err();
    assert_eq!(
        malformed.message,
        "the configured client certificate or private key is not valid PEM"
    );
    certified.auth_kind = AuthKind::Anonymous;
    certified.tls.client_certificate_ref = None;
    certified.tls.ca_certificate_ref = Some("ca".to_owned());
    let missing = client_plan(&certified, &anonymous, AuthStyle::Standard, &none).unwrap_err();
    assert_eq!(missing.message, "credential is missing required field ca");
}

#[test]
fn urls_keep_their_base_and_encode_segments() {
    let based = profile(
        "https://db.example/base/",
        Product::Qdrant,
        "qdrant_rest_v1",
        AuthKind::Anonymous,
    );
    assert_eq!(
        api_url(&based, &["collections", "a b/c"]).unwrap(),
        "https://db.example/base/collections/a%20b%2Fc"
    );
    for segment in ["", ".", ".."] {
        let error = api_url(&based, &["collections", segment]).unwrap_err();
        assert_eq!(error.message, "invalid empty or relative path segment");
    }
    assert_eq!(
        native_url(&based, "/collections/docs").unwrap(),
        "https://db.example/base/collections/docs"
    );
    assert!(native_url(&based, "/collections//docs").is_err());
    let mut odd = qdrant();
    odd.endpoint = endpoint("http://user@localhost/");
    assert_eq!(
        api_url(&odd, &["x"]).unwrap_err().message,
        "HTTP base URL contains an unsupported component"
    );
    odd.endpoint = endpoint("mailto:somebody");
    assert_eq!(
        api_url(&odd, &["x"]).unwrap_err().message,
        "endpoint URL cannot be a base URL"
    );
}

#[test]
fn profiles_must_fit_the_connector() {
    let check = |profile: &ConnectionProfile| {
        validate_profile(profile, Product::Qdrant, &["qdrant_rest_v1"]).map_err(|e| e.message)
    };
    assert!(check(&qdrant()).is_ok());
    let mut other = qdrant();
    other.product = Product::Milvus;
    assert_eq!(
        check(&other).unwrap_err(),
        "connection profile product does not match the connector"
    );
    let mut mode = qdrant();
    mode.api_mode = "grpc".to_owned();
    assert_eq!(check(&mode).unwrap_err(), "unsupported api_mode grpc");
    let mut scheme = qdrant();
    scheme.endpoint = endpoint("ftp://localhost/");
    assert_eq!(
        check(&scheme).unwrap_err(),
        "HTTP connector endpoint must use http or https and include a host"
    );
    let mut user = qdrant();
    user.endpoint = endpoint("http://u:p@localhost/");
    assert_eq!(
        check(&user).unwrap_err(),
        "credentials must not be embedded in the endpoint URL"
    );
    let mut query = qdrant();
    query.endpoint = endpoint("http://localhost/?a=b");
    assert_eq!(
        check(&query).unwrap_err(),
        "endpoint URL must not contain a query or fragment"
    );
}

#[test]
fn statuses_and_failures_have_their_categories() {
    let missing = map_http_status(404);
    assert_eq!(missing.category, ErrorCategory::NotFound);
    assert_eq!(missing.message, "database HTTP request failed with status 404 Not Found");
    assert_eq!(missing.code.as_deref(), Some("404"));
    assert!(!missing.retryable);
    for (status, category, retryable) in [
        (400, ErrorCategory::InvalidRequest, false),
        (401, ErrorCategory::Authentication, false),
        (403, ErrorCategory::PermissionDenied, false),
        (408, ErrorCategory::Timeout, true),
        (409, ErrorCategory::Conflict, false),
        (418, ErrorCategory::Protocol, false),
        (429, ErrorCategory::RateLimited, true),
        (503, ErrorCategory::Unavailable, true),
        (504, ErrorCategory::Timeout, true),
    ] {
        let error = map_http_status(status);
        assert_eq!(error.category, category);
        assert_eq!(error.retryable, retryable);
    }
    assert!(matches!(read_response(204, &Vec::new()), Ok(Json::Null)));
    assert_eq!(canonical(&read_response(200, &b"[1]".to_vec()).unwrap()), "[1]");
    assert_eq!(
        read_response(200, &b"oops".to_vec()).unwrap_err().category,
        ErrorCategory::Protocol
    );
    assert_eq!(
        read_response(500, &b"[1]".to_vec()).unwrap_err().category,
        ErrorCategory::Unavailable
    );
    assert_eq!(map_transport_error(TransportFailure::Tls).phase, ErrorPhase::Tls);
    assert!(map_transport_error(TransportFailure::Timeout).retryable);
    assert_eq!(
        map_transport_error(TransportFailure::Unreachable).category,
        ErrorCategory::Unavailable
    );
    assert_eq!(
        map_transport_error(TransportFailure::Decode).category,
        ErrorCategory::Protocol
    );
    assert_eq!(
        map_transport_error(TransportFailure::Other).category,
        ErrorCategory::Internal
    );
    assert_eq!(request_timeout_ms(2_000, &qdrant(), None), 2_000);
    assert_eq!(request_timeout_ms(9_000, &qdrant(), Some(7_000)), 5_000);
    assert_eq!(request_timeout_ms(0, &qdrant(), Some(7_000)), 1);
}

#[test]
fn names_and_limits_are_checked() {
    assert!(validate_target("docs").is_ok());
    for target in ["", ".", "..", "a/b", "a\\b", "a?b", "a#b", "a\nb", &"x".repeat(513)] {
        assert_eq!(validate_target(target).unwrap_err().message, "invalid target name");
    }
    assert!(validate_target(&"x".repeat(512)).is_ok());
    assert!(validate_graphql_name("_Article2").is_ok());
    for name in ["", "2a", "a-b", "\u{e9}"] {
        assert!(validate_graphql_name(name).is_err());
    }
    let mut narrow = qdrant();
    narrow.policy.max_rows = 3;
    assert_eq!(effective_rows(&context("r"), &narrow, 10).unwrap(), 3);
    assert_eq!(
        effective_rows(&context("r"), &narrow, 0).unwrap_err().message,
        "result limit must be greater than zero"
    );
    narrow.policy.max_bytes = 7;
    assert_eq!(effective_bytes(&context("r"), &narrow), 7);
    assert!(validate_affected(&narrow, 10, 10).is_ok());
    assert_eq!(
        validate_affected(&narrow, 10, 0).unwrap_err().message,
        "write operation must contain at least one record or id"
    );
    assert_eq!(
        validate_affected(&narrow, 101, 1).unwrap_err().message,
        "max_affected is zero or exceeds the connection policy"
    );
    assert_eq!(
        validate_affected(&narrow, 2, 3).unwrap_err().message,
        "operation contains more records than max_affected"
    );
    assert_eq!(parse_cursor_offset(None).unwrap(), 0);
    assert_eq!(parse_cursor_offset(Some("+12")).unwrap(), 12);
    assert!(parse_cursor_offset(Some("-1")).is_err());
    assert!(parse_cursor_offset(Some("99999999999999999999")).is_err());
    assert!(ensure_language("json", &["qdrant_http", "json"]).is_ok());
    assert_eq!(
        ensure_language("sql", &["json"]).unwrap_err().message,
        "native language sql is not supported"
    );
}

#[test]
fn results_stay_within_rows_and_bytes() {
    let mut profile = qdrant();
    profile.policy.max_rows = 3;
    profile.policy.max_bytes = 25;
    let records = |count: usize| -> Vec<DbRecord> { (0..count).map(|_| DbRecord::new()).collect() };
    let finish = || Finish {
        next_cursor: None,
        affected: 0,
        outcome: WriteOutcome::NotApplicable,
        elapsed_ms: 9,
    };
    let all = finish_result(&context("r"), &profile, records(2), &vec![10, 15], finish()).unwrap();
    assert_eq!(all.records.len(), 2);
    assert!(!all.truncated);
    assert_eq!(all.metrics.bytes, Some(25));
    assert_eq!(all.metrics.elapsed_ms, 9);
    let bytes = finish_result(&context("r"), &profile, records(2), &vec![10, 16], finish()).unwrap();
    assert_eq!(bytes.records.len(), 1);
    assert!(bytes.truncated);
    let rows = finish_result(&context("r"), &profile, records(4), &vec![1, 1, 1, 1], finish()).unwrap();
    assert_eq!(rows.records.len(), 3);
    assert!(rows.truncated);
    let cursor = Finish { next_cursor: Some("c".to_owned()), ..finish() };
    let more = finish_result(&context("r"), &profile, records(1), &vec![1], cursor).unwrap();
    assert!(more.truncated);
}

#[test]
fn catalogs_are_sorted_by_name() {
    let entity = |name: &str, id: &str| CatalogEntity {
        id: id.to_owned(),
        namespace: None,
        name: name.to_owned(),
        kind: "index".to_owned(),
        comment: None,
    };
    let sorted = sort_by_name(vec![
        entity("b", "1"),
        entity("a", "2"),
        entity("b", "3"),
        entity("", "4"),
        entity("ab", "5"),
    ]);
    let ids: Vec<&str> = sorted.iter().map(|entity| entity.id.as_str()).collect();
    assert_eq!(ids, ["4", "2", "5", "1", "3"]);
}

#[test]
fn filters_name_identities() {
    let eq = |value: DbValue| Filter::Eq { field: "_id".to_owned(), value };
    assert_eq!(
        extract_ids(&eq(DbValue::Int64(-7)), &["id", "_id"]).unwrap(),
        vec!["-7".to_owned()]
    );
    let list = Filter::In {
        field: "id".to_owned(),
        values: vec![DbValue::String("a".to_owned()), DbValue::UInt64(9)],
    };
    assert_eq!(
        extract_ids(&list, &["id", "_id"]).unwrap(),
        vec!["a".to_owned(), "9".to_owned()]
    );
    assert_eq!(
        extract_ids(&eq(DbValue::Bool(true)), &["id", "_id"]).unwrap_err().category,
        ErrorCategory::InvalidRequest
    );
    assert_eq!(
        extract_ids(&eq(DbValue::Int64(1)), &["other"]).unwrap_err().category,
        ErrorCategory::Unsupported
    );
}

#[test]
fn generic_documents_become_records() {
    let count = |text: &str| records_from_generic_json(&json(text)).len();
    assert_eq!(count(r#"[{"a": 1}, {"a": 2}, 3]"#), 3);
    assert_eq!(count(r#"{"results": [1, 2]}"#), 2);
    assert_eq!(count(r#"{"records": []}"#), 0);
    assert_eq!(count(r#"{"items": [1], "data": [1, 2]}"#), 1);
    assert_eq!(count(r#"{"data": [1, 2]}"#), 2);
    assert_eq!(count(r#"{"hits": {"hits": [1, 2, 3]}}"#), 3);
    assert_eq!(count(r#"{"a": 1}"#), 1);
    let single = records_from_generic_json(&json("5"));
    assert!(matches!(single[0].get("value"), Some(DbValue::Int64(5))));
}

#[test]
fn native_requests_stay_inside_their_paths() {
    let parse = |statement: &str| parse_native_envelope(statement, true, &["/collections"]);
    let envelope = parse(
        r#"{"method": "POST", "path": "/collections/docs", "query": {"a": "b"}, "body": {"x": 1}}"#,
    )
    .unwrap();
    assert!(matches!(envelope.method, HttpMethod::Post));
    assert_eq!(envelope.query, vec![("a".to_owned(), "b".to_owned())]);
    assert_eq!(canonical(&envelope.body.unwrap()), r#"{"x":1}"#);
    let listed = parse(r#"["GET", "/collections", {}, null]"#).unwrap();
    assert!(matches!(listed.method, HttpMethod::Get));
    assert!(listed.body.is_none());
    for malformed in [
        "not json",
        r#"{"path": "/collections"}"#,
        r#"{"method": "GET", "path": "/collections", "query": {"a": 1}}"#,
        r#"{"method": "GET", "path": "/collections", "query": null}"#,
        r#"["GET", "/collections"]"#,
    ] {
        assert_eq!(
            parse(malformed).unwrap_err().message,
            "native HTTP statement must be a JSON request envelope"
        );
    }
    for refused in [
        r#"{"method": "GET", "path": "/collections", "method": "GET"}"#,
        r#"{"method": "GET", "path": "/collections", "path": "/collections"}"#,
        r#"{"method": "GET", "path": "/collections", "body": 1, "body": 2}"#,
        r#"{"method": "GET", "path": "/collections", "query": {}, "query": {}}"#,
        r#"{"method": "GET", "path": "/collections", "query": {"a": 1, "a": "b"}}"#,
        r#"{"method": "GET", "path": "/collections", "body": 1e400}"#,
        r#"{"method": "GET", "path": "/collections"} x"#,
        r#"{"method": "GET", "path": "/collections",}"#,
        r#"{"method": "GET", "path" "/collections"}"#,
        r#"{method: "GET", "path": "/collections"}"#,
        r#"["GET", "/collections", {}, null, 1]"#,
        r#"["GET", "/collections", {}, null,]"#,
        "[]",
        "{}",
        "",
    ] {
        assert_eq!(
            parse(refused).unwrap_err().message,
            "native HTTP statement must be a JSON request envelope"
        );
    }
    let skipped = parse(
        " {\n \"m\\u0065thod\" : \"GET\" , \"other\": 1e400, \"other\": [{}],\t\"path\":\"/collections\", \"query\": {\"a\": \"b\", \"a\": \"c\"}} ",
    )
    .unwrap();
    assert!(matches!(skipped.method, HttpMethod::Get));
    assert_eq!(skipped.query, vec![("a".to_owned(), "c".to_owned())]);
    assert!(skipped.body.is_none());
    for path in ["collections", "//collections", "/collections/../x", "/collections?x", "/collections#"]
    {
        let statement = format!(r#"{{"method": "GET", "path": "{path}"}}"#);
        assert_eq!(parse(&statement).unwrap_err().message, "native request path is invalid");
    }
    assert_eq!(
        parse(r#"{"method": "GET", "path": "/collectionsx"}"#).unwrap_err().category,
        ErrorCategory::PermissionDenied
    );
    assert_eq!(
        parse(r#"{"method": "GE T", "path": "/collections"}"#).unwrap_err().message,
        "native request method is invalid"
    );
    assert_eq!(
        parse(r#"{"method": "", "path": "/collections"}"#).unwrap_err().message,
        "native request method is invalid"
    );
    for method in ["DELETE", "PUT", "get", "X-Custom!"] {
        let statement = format!(r#"{{"method": "{method}", "path": "/collections"}}"#);
        assert_eq!(
            parse(&statement).unwrap_err().message,
            "native query does not allow a mutating HTTP method"
        );
    }
    let writing =
        parse_native_envelope(r#"{"method": "PATCH", "path": "/collections"}"#, false, &["/"])
            .unwrap();
    assert!(matches!(writing.method, HttpMethod::Other(name) if name == "PATCH"));
    assert!(path_has_prefix("/a/b", "/a"));
    assert!(path_has_prefix("/a", "/a"));
    assert!(path_has_prefix("/x", "/"));
    assert!(!path_has_prefix("/ab", "/a"));
    let request = NativeRequest {
        language: "json".to_owned(),
        statement: "{}".to_owned(),
        parameters: DbRecord::new(),
        positional_parameters: vec![DbValue::Null],
        max_affected: None,
    };
    assert!(validate_native_parameters(&request).is_err());
}

#[test]
fn pinecone_data_stays_encrypted_or_local() {
    for (address, accepted) in [
        ("http://localhost/", true),
        ("http://LOCALHOST:5080/", true),
        ("http://127.9.8.7/", true),
        ("http://[::1]:5080/", true),
        ("http://128.0.0.1/", false),
        ("http://[::2]/", false),
        ("http://index.example/", false),
        ("https://index.example/", true),
    ] {
        assert_eq!(validate_pinecone_url(&endpoint(address)).is_ok(), accepted);
    }
    let local = profile("http://localhost/", Product::Pinecone, "pinecone_2025_10", AuthKind::ApiKey);
    assert_eq!(validate_data_url(&local, "127.0.0.1:5081").unwrap().text, "http://127.0.0.1:5081/");
    let mut encrypted =
        profile("https://api.example/", Product::Pinecone, "pinecone_2025_10", AuthKind::ApiKey);
    encrypted.tls.enabled = true;
    assert_eq!(
        validate_data_url(&encrypted, "docs.example").unwrap().text,
        "https://docs.example/"
    );
    assert_eq!(
        validate_data_url(&encrypted, "http://localhost").unwrap_err().message,
        "Pinecone data host is not HTTPS"
    );
    assert_eq!(
        validate_data_url(&encrypted, "https://u@docs.example").unwrap_err().message,
        "Pinecone returned an unsafe data host"
    );
    assert_eq!(
        validate_data_url(&encrypted, "no host at all").unwrap_err().message,
        "Pinecone returned an invalid data host"
    );
    assert_eq!(
        validate_data_url(&local, "docs.example").unwrap_err().message,
        "Pinecone HTTP endpoints are allowed only on loopback for Pinecone Local"
    );
}

#[test]
fn pinecone_hosts_come_from_settings_or_the_description() {
    let mut profile =
        profile("http://localhost/", Product::Pinecone, "pinecone_2025_10", AuthKind::ApiKey);
    match host_source(&profile, "docs").unwrap() {
        HostSource::Lookup(request) => assert_eq!(request.url, "http://localhost/indexes/docs"),
        other => panic!("unexpected source {other:?}"),
    }
    profile.options.push(("index_host".to_owned(), Json::Text("one".to_owned())));
    assert_eq!(find_configured_host(&profile, "docs"), Some("one"));
    profile.database = Some("images".to_owned());
    assert_eq!(find_configured_host(&profile, "docs"), None);
    profile.options.push(("index_hosts".to_owned(), json(r#"{"docs": "two"}"#)));
    assert_eq!(find_configured_host(&profile, "docs"), Some("two"));
    assert_eq!(find_configured_host(&profile, "images"), Some("one"));
    assert_eq!(described_host(&json(r#"{"host": "three"}"#)).unwrap(), "three");
    assert!(described_host(&json("{}")).is_err());
    assert!(host_source(&profile, "a/b").is_err());
}

#[test]
fn splunk_events_go_to_the_collector() {
    let mut splunk =
        profile("http://localhost:8089/", Product::Splunk, "splunk_rest_hec", AuthKind::ApiKey);
    assert_eq!(
        SplunkConnector::health_request(&splunk).unwrap().url,
        "http://localhost:8088/services/collector/health/1.0"
    );
    splunk.endpoint = endpoint("http://localhost:9000/base");
    assert_eq!(
        SplunkConnector::health_request(&splunk).unwrap().url,
        "http://localhost:9000/base/services/collector/health/1.0"
    );
    splunk.options.push(("hec_endpoint".to_owned(), Json::Text("not a url".to_owned())));
    assert_eq!(
        SplunkConnector::health_request(&splunk).unwrap_err().message,
        "hec_endpoint is not a valid URL"
    );
    splunk.options[0].1 = Json::Text("http://collector:1/".to_owned());
    assert_eq!(
        SplunkConnector::health_request(&splunk).unwrap().url,
        "http://collector:1/services/collector/health/1.0"
    );
    splunk.tls.enabled = true;
    assert_eq!(
        SplunkConnector::health_request(&splunk).unwrap_err().message,
        "HEC endpoint is not HTTPS"
    );
    assert!(SplunkConnector::tests_collector(&secret(AuthKind::ApiKey, &[("hec_token", "h")])));
    assert!(!SplunkConnector::tests_collector(&secret(AuthKind::ApiKey, &[("hec_token", "")])));
}

#[test]
fn graphql_statements_only_read() {
    assert!(validate_read_only_graphql("{ Get { Article { title } } }").is_ok());
    assert!(validate_read_only_graphql("query Q { Get { Article { title } } }").is_ok());
    assert_eq!(
        validate_read_only_graphql("subscription { x }").unwrap_err().category,
        ErrorCategory::PermissionDenied
    );
    assert_eq!(
        validate_read_only_graphql("query A { x } mutation B { y }").unwrap_err().category,
        ErrorCategory::PermissionDenied
    );
    assert_eq!(
        validate_read_only_graphql("fragment F on Article { title }").unwrap_err().message,
        "Weaviate GraphQL statement does not contain a query operation"
    );
    assert_eq!(
        validate_read_only_graphql("{ a(b: \"\"\"\n x\n\u{a0}y\n\"\"\") }").unwrap_err().message,
        validate_read_only_graphql("{").unwrap_err().message
    );
    assert!(validate_read_only_graphql("{ a(b: \"\"\"\n x\n y\n\"\"\") }").is_ok());
    assert!(validate_read_only_graphql("{ a(b: \"\u{a0}y\") }").is_ok());
    let within = |block: &str| format!("# \" \"\"\"\n{{ c(d: \"\\\"\") a(b: \"\"\"{block}\"\"\") }}");
    for accepted in [
        "",
        "\n\u{a0}x\n\u{a0}y\n",
        "\u{a0}x\n  y\n",
        "\n\u{a0}\n x\n\u{a0}",
        "\n   x\n\u{2003}y",
        "x\n \\\"\"\"\u{e9}",
    ] {
        assert!(validate_read_only_graphql(&within(accepted)).is_ok());
    }
    for cut in ["\n x\n\u{a0}y\n", "x\n\u{a0}\n y", "\n\u{a0}x\n\u{2003}y", "\\\"\"\"\n\u{a0}\n y"] {
        assert_eq!(
            validate_read_only_graphql(&within(cut)).unwrap_err().message,
            validate_read_only_graphql("{").unwrap_err().message
        );
    }
    assert_eq!(
        validate_read_only_graphql("{").unwrap_err().message,
        "Weaviate GraphQL statement could not be parsed"
    );
}

#[test]
fn graphql_queries_are_built_of_literals() {
    assert_eq!(
        graphql_literal(&json(
            r#"{"operator": "Equal", "path": ["a"], "valueText": "x\"y", "valueInt": -2, "n": null}"#
        ))
        .unwrap(),
        r#"{n: null,operator: Equal,path: ["a"],valueInt: -2,valueText: "x\"y"}"#
    );
    assert!(graphql_literal(&json(r#"{"bad name": 1}"#)).is_err());
    assert_eq!(
        graphql_literal(&json(r#"{"operator": 5}"#)).unwrap_err().message,
        "Weaviate where operator must be a GraphQL enum name"
    );
    assert!(graphql_literal(&json(r#"{"operator": "Equal}"}"#)).is_err());

    let schema = json(
        r#"{"properties": [
            {"name": "title", "dataType": ["text"]},
            {"name": "author", "dataType": ["Person"]},
            {"name": "place", "dataType": ["geoCoordinates"]},
            {"name": "phone", "dataType": ["phoneNumber"]},
            {"name": "nested", "dataType": ["object"]},
            {"dataType": ["text"]}
        ]}"#,
    );
    let fields = scalar_fields(&schema).unwrap();
    assert_eq!(fields, ["title", "place { latitude longitude }", "phone { input }"]);
    assert!(scalar_fields(&json("{}")).is_err());
    assert!(scalar_fields(&json(r#"{"properties": [{"name": "a b"}]}"#)).is_err());

    let arguments = vec![("bm25".to_owned(), json(r#"{"query": "rust"}"#))];
    assert_eq!(
        build_get_query("Article", &arguments, 5, &Vec::new(), true).unwrap(),
        r#"{ Get { Article(bm25: {query: "rust"}, limit: 5) { _additional { id score vector } } } }"#
    );
    let unknown = vec![("ask".to_owned(), Json::Null)];
    assert_eq!(
        build_get_query("Article", &unknown, 5, &Vec::new(), false).unwrap_err().message,
        "unsupported Weaviate GraphQL search argument ask"
    );
    assert!(validate_weaviate_id("4b39d9be-679a-4c00-8db7-06ad46fe9a3a").is_ok());
    assert!(validate_weaviate_id("4b39d9be").is_err());
}

#[test]
fn pages_count_the_entity_that_shows_the_next() {
    let mut profile = qdrant();
    profile.policy.max_bytes = 25;
    let entity = |name: &str| CatalogEntity {
        id: name.to_owned(),
        namespace: None,
        name: name.to_owned(),
        kind: "index".to_owned(),
        comment: None,
    };
    let query = CatalogQuery {
        pattern: None,
        namespace: None,
        limit: 1,
        cursor: Some("3".to_owned()),
    };
    let page = |sizes: Vec<u64>| {
        let found = sizes.iter().map(|_| entity("a")).collect();
        bounded_page(&context("r"), &profile, &query, found, &sizes)
    };
    let next = page(vec![11, 11, 99]).unwrap();
    assert_eq!(next.entities.len(), 1);
    assert_eq!(next.next_cursor.as_deref(), Some("4"));
    let last = page(vec![23]).unwrap();
    assert!(last.next_cursor.is_none());
    assert_eq!(
        page(vec![11, 12]).unwrap_err().message,
        "catalog result exceeds max_bytes; reduce the catalog limit or narrow the pattern"
    );
}
