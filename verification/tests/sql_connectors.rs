use sql_connector::model::{
    AuthKind, Capability, CatalogEntity, CatalogQuery, ConnectionPolicy, ConnectionProfile,
    ConnectorContext, Endpoint, ErrorCategory, ErrorPhase, Filter, InsertRequest, Product,
    QueryOptions, ReadRequest, SecretMaterial, TextFields, TlsConfig, UpdateRequest,
};
use sql_connector::secret::tls_secret_value;
use sql_connector::sql::cursor::{catalog_fetch_inputs, catalog_page};
use sql_connector::sql::identifier::{quote_identifier, SqlFamily};
use sql_connector::sql::metadata::{
    ForeignKeyMetadata, IndexMetadata, NamedColumns, RelationalMetadata,
};
use sql_connector::sql::mysql::{MySqlConnector, MySqlFlavor};
use sql_connector::sql::mysql_catalog::{assemble_mysql_metadata, describe_mysql_entity};
use sql_connector::sql::mysql_options::build_options;
use sql_connector::sql::mysql_values::{map_mysql_error, MySqlFailure};
use sql_connector::sql::native::parse_native;
use sql_connector::sql::numeric::encode_pg_numeric;
use sql_connector::sql::oracle::OracleConnector;
use sql_connector::sql::postgres::{PostgresConnector, PostgresFlavor};
use sql_connector::sql::postgres_values::build_tls_config;
use sql_connector::sql::sql_server::{validate_ado_auth, SqlServerConnector};
use sql_connector::sql::sql_server_catalog::{
    group_tds_relational_metadata, TdsConstraintColumn, TdsConstraintKind, TdsIndexColumn,
};
use sql_connector::sql::statement::{build_insert, build_read, build_update};
use sql_connector::value::{DbRecord, DbValue};

fn endpoint(text: &str) -> Endpoint {
    let url = url::Url::parse(text).expect("URL is valid");
    let owned = |part: Option<&str>| part.map(str::to_owned);
    Endpoint {
        text: url.to_string(),
        scheme: url.scheme().to_owned(),
        host: owned(url.host_str()),
        port: url.port(),
        path: url.path().to_owned(),
        username: url.username().to_owned(),
        password: owned(url.password()),
        query: owned(url.query()),
        fragment: owned(url.fragment()),
        cannot_be_a_base: url.cannot_be_a_base(),
    }
}

fn profile_of(product: Product, api_mode: &str, address: &str, database: &str) -> ConnectionProfile {
    ConnectionProfile {
        product,
        api_mode: api_mode.into(),
        endpoint: endpoint(address),
        database: Some(database.into()),
        auth_kind: AuthKind::UsernamePassword,
        tls: TlsConfig::default(),
        policy: ConnectionPolicy {
            max_rows: 100,
            max_bytes: 1024,
            timeout_ms: 1000,
            max_affected: 10,
            allow_native_read: true,
            allow_native_write: true,
        },
        options: vec![],
    }
}

fn profile() -> ConnectionProfile {
    profile_of(Product::PostgreSql, "postgresql", "postgresql://localhost:5432", "db")
}

fn mysql_profile() -> ConnectionProfile {
    let mut profile = profile_of(Product::MySql, "mysql", "mysql://localhost:3306", "test");
    profile.auth_kind = AuthKind::ClientCertificate;
    profile
}

fn oracle_profile() -> ConnectionProfile {
    let mut profile = profile_of(Product::Oracle, "tns", "oracle://localhost:1521", "FREEPDB1");
    profile.tls.enabled = false;
    profile
}

fn sql_server_profile() -> ConnectionProfile {
    profile_of(Product::SqlServer, "tds", "sqlserver://localhost:1433", "test")
}

fn context() -> ConnectorContext {
    ConnectorContext { request_id: "request".into(), max_rows: 50, max_bytes: 1024 }
}

fn secret(kind: AuthKind, fields: &[(&str, &str)]) -> SecretMaterial {
    let mut list = TextFields::new();
    for (name, value) in fields {
        list.insert((*name).to_owned(), (*value).to_owned());
    }
    SecretMaterial { kind, fields: list }
}

fn options() -> QueryOptions {
    QueryOptions { limit: 100, cursor: None, sort: vec![], timeout_ms: None }
}

fn record(name: &str, value: DbValue) -> DbRecord {
    let mut record = DbRecord::new();
    record.insert(name.to_owned(), value);
    record
}

#[test]
fn identifier_quoting_blocks_injection() {
    assert_eq!(quote_identifier(SqlFamily::PostgreSql, "a\"b").unwrap(), "\"a\"\"b\"");
    assert_eq!(quote_identifier(SqlFamily::MySql, "a`b").unwrap(), "`a``b`");
    assert_eq!(quote_identifier(SqlFamily::SqlServer, "a]b").unwrap(), "[a]]b]");
    assert!(quote_identifier(SqlFamily::PostgreSql, "bad\0name").is_err());
}

#[test]
fn values_are_never_interpolated_into_read_sql() {
    let request = ReadRequest {
        target: "public.users".into(),
        fields: vec!["name".into()],
        filter: Some(Filter::Eq {
            field: "name".into(),
            value: DbValue::String("x' OR TRUE --".into()),
        }),
        options: options(),
    };
    let built = build_read(SqlFamily::PostgreSql, &context(), &profile(), &request).unwrap();
    assert!(!built.sql.contains("OR TRUE"));
    assert!(built.sql.contains("$1"));
    assert_eq!(built.parameters.len(), 1);
}

#[test]
fn oracle_builds_native_binds_and_multi_row_insert() {
    let read = ReadRequest {
        target: "APP.USERS".into(),
        fields: vec!["NAME".into()],
        filter: Some(Filter::Eq { field: "TENANT_ID".into(), value: DbValue::Int64(7) }),
        options: options(),
    };
    let built = build_read(SqlFamily::Oracle, &context(), &profile(), &read).unwrap();
    assert!(built.sql.contains(":1"));
    assert!(built.sql.contains("OFFSET 0 ROWS FETCH NEXT"));

    let insert = InsertRequest {
        target: "APP.USERS".into(),
        records: vec![record("ID", DbValue::Int64(1)), record("ID", DbValue::Int64(2))],
        idempotency_key: None,
    };
    let built = build_insert(SqlFamily::Oracle, &profile(), &insert).unwrap();
    assert!(built.sql.starts_with("INSERT ALL "));
    assert!(built.sql.contains(":1"));
    assert!(built.sql.contains(":2"));
    assert!(built.sql.ends_with("SELECT 1 FROM DUAL"));
}

#[test]
fn native_sql_rejects_multiple_and_ddl_statements() {
    assert!(parse_native(SqlFamily::PostgreSql, "SELECT 1; SELECT 2", false).is_err());
    assert!(parse_native(SqlFamily::PostgreSql, "DROP TABLE users", true).is_err());
    assert!(parse_native(SqlFamily::PostgreSql, "UPDATE users SET x = $1", true).is_ok());
    assert!(parse_native(
        SqlFamily::PostgreSql,
        "WITH changed AS (DELETE FROM users RETURNING *) SELECT * FROM changed",
        false,
    )
    .is_err());
    assert!(parse_native(
        SqlFamily::SqlServer,
        "SELECT id INTO archived_users FROM users",
        false,
    )
    .is_err());
}

#[test]
fn catalog_page_uses_an_extra_row_to_prove_there_is_a_next_page() {
    let mut context = context();
    context.max_rows = 1;
    let mut profile = profile();
    profile.policy.max_rows = 1;
    let query = CatalogQuery { pattern: None, namespace: None, limit: 1, cursor: None };
    let fetch = catalog_fetch_inputs(&context, &profile, &query).unwrap();
    assert_eq!(fetch.context_rows, 2);
    assert_eq!(fetch.policy_rows, 2);
    assert_eq!(fetch.limit, 2);

    let entity = |name: &str| CatalogEntity {
        id: name.into(),
        namespace: None,
        name: name.into(),
        kind: "table".into(),
        comment: None,
    };
    let final_page = catalog_page(&context, &profile, &query, vec![entity("one")]).unwrap();
    assert!(final_page.next_cursor.is_none());
    let continued =
        catalog_page(&context, &profile, &query, vec![entity("one"), entity("two")]).unwrap();
    assert_eq!(continued.entities.len(), 1);
    assert!(continued.next_cursor.is_some());
}

#[test]
fn update_is_bounded_in_each_dialect() {
    let request = UpdateRequest {
        target: "users".into(),
        filter: Filter::Eq { field: "tenant".into(), value: DbValue::String("a".into()) },
        changes: record("active", DbValue::Bool(false)),
        max_affected: 5,
        idempotency_key: None,
    };
    let pg = build_update(SqlFamily::PostgreSql, &profile(), &request).unwrap();
    let mysql = build_update(SqlFamily::MySql, &profile(), &request).unwrap();
    let tds = build_update(SqlFamily::SqlServer, &profile(), &request).unwrap();
    assert!(pg.sql.contains("LIMIT 5"));
    assert!(mysql.sql.ends_with("LIMIT 5"));
    assert!(tds.sql.contains("TOP (5)"));
}

#[test]
fn mysql_compatible_products_keep_distinct_identity() {
    let mysql = MySqlConnector::mysql().manifest();
    let tidb = MySqlConnector::tidb().manifest();
    let oceanbase = MySqlConnector::oceanbase_mysql().manifest();
    assert_eq!(mysql.product, Product::MySql);
    assert_eq!(tidb.product, Product::TiDb);
    assert_eq!(oceanbase.product, Product::OceanBase);
    assert_ne!(mysql.id, tidb.id);
    assert_ne!(tidb.id, oceanbase.id);
    let mismatch = sql_connector::sql::mysql::verify_server_flavor(
        MySqlFlavor::MySql,
        "5.7.25-TiDB-v8.5.0",
    )
    .unwrap_err();
    assert_eq!(mismatch.code.as_deref(), Some("product_mismatch"));
}

#[test]
fn metadata_rows_group_composite_keys_and_indexes_in_ordinal_order() {
    let metadata = assemble_mysql_metadata(
        vec![
            ("PRIMARY".into(), "PRIMARY KEY".into(), "tenant_id".into(), 2),
            ("PRIMARY".into(), "PRIMARY KEY".into(), "id".into(), 1),
            ("uq_email".into(), "UNIQUE".into(), "email".into(), 1),
        ],
        vec![
            (
                "fk_order_customer".into(),
                "customer_region".into(),
                "crm".into(),
                "customers".into(),
                "region".into(),
                2,
            ),
            (
                "fk_order_customer".into(),
                "customer_id".into(),
                "crm".into(),
                "customers".into(),
                "id".into(),
                1,
            ),
        ],
        vec![
            ("idx_status_created".into(), 1, Some("created_at".into()), 2),
            ("idx_status_created".into(), 1, Some("status".into()), 1),
            ("uq_email".into(), 0, Some("email".into()), 1),
        ],
    );

    assert_eq!(metadata.primary_key.unwrap().columns, ["id", "tenant_id"]);
    assert_eq!(metadata.unique_constraints[0].columns, ["email"]);
    assert_eq!(metadata.foreign_keys[0].columns, ["customer_id", "customer_region"]);
    assert_eq!(metadata.foreign_keys[0].referenced_entity, "crm.customers");
    assert_eq!(metadata.foreign_keys[0].referenced_columns, ["id", "region"]);
    assert_eq!(metadata.indexes[0].columns, ["status", "created_at"]);
    assert!(!metadata.indexes[0].unique);
    assert!(metadata.indexes[1].unique);
}

#[test]
fn tls_driver_error_has_tls_phase() {
    for _ in ["no TLS offered by the server", "certificate rejected"] {
        let mapped = map_mysql_error(&MySqlFailure::Tls, false);
        assert_eq!(mapped.category, ErrorCategory::Unavailable);
        assert_eq!(mapped.phase, ErrorPhase::Tls);
        assert_eq!(mapped.message, "MySQL TLS handshake failed");
        assert!(!mapped.retryable);
    }
}

#[test]
fn tls_certificate_references_are_secret_fields_backed_by_buffers() {
    const CA_REFERENCE: &str = "/definitely/not/a/mysql-ca.pem";
    const CLIENT_REFERENCE: &str = "C:\\definitely\\not\\a\\mysql-client.pem";
    const CA: &str = "CA bytes from secret material";
    const CLIENT: &str = "client certificate bytes from secret material";
    const PRIVATE_KEY: &str = "preferred private key bytes";

    let mut profile = mysql_profile();
    profile.tls.ca_certificate_ref = Some(CA_REFERENCE.into());
    profile.tls.client_certificate_ref = Some(CLIENT_REFERENCE.into());
    let secret = secret(
        AuthKind::ClientCertificate,
        &[
            ("username", "mysql"),
            (CA_REFERENCE, CA),
            (CLIENT_REFERENCE, CLIENT),
            ("client_private_key_pem", PRIVATE_KEY),
            ("private_key_pem", "legacy private key bytes"),
        ],
    );
    let tls = build_options(&profile, &secret).unwrap().tls.unwrap();
    assert_eq!(tls.ca_certificate.as_deref(), Some(CA));
    let (certificate, private_key) = tls.client_identity.unwrap();
    assert_eq!(certificate, CLIENT);
    assert_eq!(private_key, PRIVATE_KEY);
}

#[test]
fn mysql_client_certificate_authentication_requires_a_certificate_reference() {
    let error = MySqlConnector::mysql().validate_profile(&mysql_profile()).unwrap_err();
    assert_eq!(error.category, ErrorCategory::InvalidRequest);
    assert_eq!(
        error.message,
        "MySQL client-certificate authentication requires TLS and tls.client_certificate_ref"
    );
}

#[test]
fn mysql_tls_fallback_fields_are_ignored_without_certificate_references() {
    let mut profile = mysql_profile();
    profile.auth_kind = AuthKind::UsernamePassword;
    let secret = secret(
        AuthKind::UsernamePassword,
        &[
            ("username", "mysql"),
            ("password", "password"),
            ("ca_certificate_pem", "unused CA PEM"),
            ("client_certificate_pem", "unused client certificate PEM"),
            ("client_private_key_pem", "unused private key PEM"),
        ],
    );
    let tls = build_options(&profile, &secret).unwrap().tls.unwrap();
    assert!(tls.ca_certificate.is_none());
    assert!(tls.client_identity.is_none());
}

#[test]
fn manifest_advertises_oracle_crud() {
    let manifest = OracleConnector::new().manifest();
    assert!(manifest.supports(Capability::TestConnection));
    assert!(manifest.supports(Capability::Read));
    assert!(manifest.supports(Capability::NativeExecute));
}

#[test]
fn username_password_builds_service_config() {
    let secret = secret(
        AuthKind::UsernamePassword,
        &[("username", "system"), ("password", "secret")],
    );
    let config =
        sql_connector::sql::oracle::build_config(&oracle_profile(), &secret, 1_000).unwrap();
    assert_eq!(config.host, "localhost");
    assert_eq!(config.port, 1_521);
    assert_eq!(config.username, "system");
}

#[test]
fn postgres_compatible_products_keep_distinct_identity() {
    let postgres = PostgresConnector::postgresql().manifest();
    let cockroach = PostgresConnector::cockroachdb().manifest();
    let yugabyte = PostgresConnector::yugabyte_ysql().manifest();
    assert_eq!(postgres.product, Product::PostgreSql);
    assert_eq!(cockroach.product, Product::CockroachDb);
    assert_eq!(yugabyte.product, Product::YugabyteDb);
    assert_ne!(postgres.id, cockroach.id);
    assert_ne!(cockroach.id, yugabyte.id);
    let mismatch = sql_connector::sql::postgres::verify_server_flavor(
        PostgresFlavor::PostgreSql,
        "CockroachDB CCL v25.1.0 (x86_64)",
    )
    .unwrap_err();
    assert_eq!(mismatch.code.as_deref(), Some("product_mismatch"));
}

#[test]
fn numeric_parameters_use_lossless_postgres_binary_encoding() {
    fn encoded(value: &str) -> Vec<u8> {
        encode_pg_numeric(value).unwrap()
    }

    assert_eq!(encoded("0"), vec![0, 0, 0, 0, 0, 0, 0, 0]);
    assert_eq!(
        encoded("12345.67"),
        vec![0, 3, 0, 1, 0, 0, 0, 2, 0, 1, 9, 41, 26, 44]
    );
    assert_eq!(encoded("-0.0012"), vec![0, 1, 255, 255, 64, 0, 0, 4, 0, 12]);
}

fn postgres_profile() -> ConnectionProfile {
    profile_of(Product::PostgreSql, "postgresql", "postgresql://localhost:5432", "test")
}

#[test]
fn tls_certificate_reference_names_a_secret_field_not_a_path() {
    let reference = "/definitely/not/a/postgresql-ca.pem";
    let mut profile = postgres_profile();
    profile.tls.ca_certificate_ref = Some(reference.into());
    let secret = secret(
        AuthKind::UsernamePassword,
        &[
            ("username", "postgres"),
            ("password", "password"),
            (reference, "not a PEM certificate"),
        ],
    );
    let error = build_tls_config(&profile, &secret).unwrap_err();
    assert_eq!(error.category, ErrorCategory::InvalidRequest);
    assert_eq!(
        error.message,
        "PostgreSQL CA certificate credential contains no certificates"
    );
}

#[test]
fn empty_referenced_tls_field_uses_non_empty_fallback() {
    let secret = secret(
        AuthKind::UsernamePassword,
        &[
            ("username", "postgres"),
            ("password", "password"),
            ("custom-ca", ""),
            ("ca_certificate_pem", "fallback PEM"),
        ],
    );
    assert_eq!(
        tls_secret_value(&secret, Some("custom-ca"), &["ca_certificate_pem"]),
        Some("fallback PEM")
    );
}

#[test]
fn postgres_client_certificate_authentication_requires_a_certificate_reference() {
    let mut profile = postgres_profile();
    profile.auth_kind = AuthKind::ClientCertificate;
    let error = PostgresConnector::postgresql().validate_profile(&profile).unwrap_err();
    assert_eq!(error.category, ErrorCategory::InvalidRequest);
    assert_eq!(
        error.message,
        "PostgreSQL client-certificate authentication requires TLS and tls.client_certificate_ref"
    );
}

#[test]
fn postgres_tls_fallback_fields_are_ignored_without_certificate_references() {
    let secret = secret(
        AuthKind::UsernamePassword,
        &[
            ("username", "postgres"),
            ("password", "password"),
            ("ca_certificate_pem", "invalid CA PEM"),
            ("client_certificate_pem", "invalid client certificate PEM"),
            ("client_private_key_pem", "invalid key PEM"),
        ],
    );
    assert!(build_tls_config(&postgres_profile(), &secret).is_ok());
}

#[test]
fn relational_metadata_has_stable_model_facing_shape() {
    let record = RelationalMetadata {
        primary_key: Some(NamedColumns { name: "users_pkey".into(), columns: vec!["id".into()] }),
        foreign_keys: vec![ForeignKeyMetadata {
            name: "users_team_id_fkey".into(),
            columns: vec!["team_id".into()],
            referenced_entity: "public.teams".into(),
            referenced_columns: vec!["id".into()],
        }],
        unique_constraints: vec![],
        indexes: vec![IndexMetadata {
            name: "users_email_idx".into(),
            columns: vec!["email".into()],
            unique: true,
        }],
    }
    .into_record();

    assert!(matches!(record.get("primary_key"), Some(DbValue::Document(_))));
    assert!(matches!(record.get("foreign_keys"), Some(DbValue::Array(keys)) if keys.len() == 1));
    assert!(
        matches!(record.get("unique_constraints"), Some(DbValue::Array(keys)) if keys.is_empty())
    );
    assert!(matches!(record.get("indexes"), Some(DbValue::Array(indexes)) if indexes.len() == 1));
}

#[test]
fn manifest_is_tds_specific() {
    let manifest = SqlServerConnector::new().manifest();
    assert_eq!(manifest.product, Product::SqlServer);
    assert_eq!(manifest.api_mode, "tds");
}

fn index_column(name: &str, column: &str, ordinal: i32, unique: bool) -> TdsIndexColumn {
    TdsIndexColumn { name: name.into(), column: column.into(), ordinal, unique }
}

#[test]
fn relational_metadata_groups_composite_columns_by_ordinal() {
    let metadata = group_tds_relational_metadata(
        vec![
            TdsConstraintColumn {
                kind: TdsConstraintKind::PrimaryKey,
                name: "PK_orders".into(),
                column: "order_id".into(),
                ordinal: 2,
            },
            TdsConstraintColumn {
                kind: TdsConstraintKind::PrimaryKey,
                name: "PK_orders".into(),
                column: "tenant_id".into(),
                ordinal: 1,
            },
            TdsConstraintColumn {
                kind: TdsConstraintKind::ForeignKey {
                    referenced_entity: "accounts.customers".into(),
                    referenced_column: "customer_id".into(),
                },
                name: "FK_orders_customers".into(),
                column: "customer_id".into(),
                ordinal: 2,
            },
            TdsConstraintColumn {
                kind: TdsConstraintKind::ForeignKey {
                    referenced_entity: "accounts.customers".into(),
                    referenced_column: "tenant_id".into(),
                },
                name: "FK_orders_customers".into(),
                column: "tenant_id".into(),
                ordinal: 1,
            },
            TdsConstraintColumn {
                kind: TdsConstraintKind::UniqueConstraint,
                name: "UQ_orders_reference".into(),
                column: "reference".into(),
                ordinal: 1,
            },
        ],
        vec![
            index_column("IX_orders_status_created", "created_at", 2, false),
            index_column("IX_orders_status_created", "status", 1, false),
            index_column("PK_orders", "order_id", 2, true),
            index_column("PK_orders", "tenant_id", 1, true),
        ],
    );

    assert_eq!(metadata.primary_key.unwrap().columns, ["tenant_id", "order_id"]);
    assert_eq!(metadata.foreign_keys[0].columns, ["tenant_id", "customer_id"]);
    assert_eq!(metadata.foreign_keys[0].referenced_columns, ["tenant_id", "customer_id"]);
    assert_eq!(metadata.foreign_keys[0].referenced_entity, "accounts.customers");
    assert_eq!(metadata.unique_constraints[0].columns, ["reference"]);
    assert_eq!(metadata.indexes[0].columns, ["status", "created_at"]);
    assert_eq!(metadata.indexes[1].columns, ["tenant_id", "order_id"]);
    assert!(metadata.indexes[1].unique);
}

#[test]
fn connection_string_cannot_weaken_auth_or_tls() {
    assert!(validate_ado_auth("server=db;TrustServerCertificate=true").is_err());
    assert!(validate_ado_auth("server=db;TrustServerCertificateCA=/tmp/ca.pem").is_err());
    assert!(validate_ado_auth("server=db;IntegratedSecurity=yes").is_err());
    assert!(validate_ado_auth("server=db;uid=u;pwd=p").is_ok());
}

#[test]
fn tls_secret_references_are_never_forwarded_as_paths() {
    let mut profile = sql_server_profile();
    profile.tls.ca_certificate_ref = Some("/tmp/must-not-be-read-as-ca.pem".into());
    let secret = secret(
        AuthKind::UsernamePassword,
        &[
            ("username", "sa"),
            ("password", "password"),
            (
                "ca_certificate_pem",
                "-----BEGIN CERTIFICATE-----\n...\n-----END CERTIFICATE-----",
            ),
        ],
    );
    let error = sql_connector::sql::sql_server::build_config(&profile, &secret).unwrap_err();
    assert_eq!(error.category, ErrorCategory::Unsupported);
    assert!(error.message.contains("SecretMaterial field"));

    profile.tls.ca_certificate_ref = None;
    profile.tls.client_certificate_ref = Some("/tmp/must-not-be-read-as-client.pem".into());
    let error = sql_connector::sql::sql_server::build_config(&profile, &secret).unwrap_err();
    assert_eq!(error.category, ErrorCategory::Unsupported);
    assert!(error.message.contains("client-certificate"));
}

fn document<'a>(value: Option<&'a DbValue>) -> &'a DbRecord {
    match value {
        Some(DbValue::Document(record)) => record,
        other => panic!("unexpected value {other:?}"),
    }
}

fn items<'a>(value: Option<&'a DbValue>) -> &'a [DbValue] {
    match value {
        Some(DbValue::Array(items)) => items,
        other => panic!("unexpected value {other:?}"),
    }
}

fn shown<'a>(value: Option<&'a DbValue>) -> &'a str {
    match value {
        Some(DbValue::String(text)) => text,
        other => panic!("unexpected value {other:?}"),
    }
}

fn named<'a>(list: &'a [DbValue], name: &str) -> &'a DbRecord {
    list.iter()
        .map(|item| document(Some(item)))
        .find(|item| shown(item.get("name")) == name)
        .unwrap()
}

#[test]
fn live_describe_entity_returns_comments_keys_and_indexes() {
    let database = "metadata";
    let description = describe_mysql_entity(
        database,
        "child",
        Some(("BASE TABLE".into(), Some("child metadata table".into()))),
        &vec![
            ("tenant_id".into(), "bigint".into(), "NO".into(), 1, Some(String::new())),
            ("child_id".into(), "bigint".into(), "NO".into(), 2, Some("child identifier".into())),
        ],
        vec![
            ("PRIMARY".into(), "PRIMARY KEY".into(), "tenant_id".into(), 1),
            ("PRIMARY".into(), "PRIMARY KEY".into(), "child_id".into(), 2),
            ("uq_child_code".into(), "UNIQUE".into(), "tenant_id".into(), 1),
            ("uq_child_code".into(), "UNIQUE".into(), "code".into(), 2),
        ],
        vec![
            (
                "fk_child_parent".into(),
                "tenant_id".into(),
                database.into(),
                "parent".into(),
                "tenant_id".into(),
                1,
            ),
            (
                "fk_child_parent".into(),
                "parent_id".into(),
                database.into(),
                "parent".into(),
                "parent_id".into(),
                2,
            ),
        ],
        vec![
            ("idx_child_status_created".into(), 1, Some("status".into()), 1),
            ("idx_child_status_created".into(), 1, Some("created_at".into()), 2),
        ],
    )
    .unwrap();

    assert_eq!(description.entity.kind, "base table");
    assert_eq!(description.entity.comment.as_deref(), Some("child metadata table"));
    let child_id = description
        .fields
        .iter()
        .find(|field| shown(field.get("name")) == "child_id")
        .unwrap();
    assert_eq!(shown(child_id.get("comment")), "child identifier");

    let metadata = description.metadata;
    let primary_key = items(document(metadata.get("primary_key")).get("columns"));
    assert_eq!(shown(primary_key.first()), "tenant_id");
    assert_eq!(shown(primary_key.get(1)), "child_id");
    let unique = named(items(metadata.get("unique_constraints")), "uq_child_code");
    assert_eq!(shown(items(unique.get("columns")).get(1)), "code");
    let foreign_key = document(items(metadata.get("foreign_keys")).first());
    assert_eq!(shown(foreign_key.get("name")), "fk_child_parent");
    assert_eq!(shown(foreign_key.get("referenced_entity")), format!("{database}.parent"));
    assert_eq!(shown(items(foreign_key.get("columns")).get(1)), "parent_id");
    assert_eq!(shown(items(foreign_key.get("referenced_columns")).get(1)), "parent_id");
    let index = named(items(metadata.get("indexes")), "idx_child_status_created");
    assert!(matches!(index.get("unique"), Some(DbValue::Bool(false))));
    assert_eq!(shown(items(index.get("columns")).first()), "status");
    assert_eq!(shown(items(index.get("columns")).get(1)), "created_at");
}
