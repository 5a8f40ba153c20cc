//! PostgreSQL and the products that speak its protocol.
use crate::model::{
    error_of, failing, failure, first_error, framed, invalid, invalid_request,
    is_description_result, unsupported, unsupported_request, AuthKind, CatalogEntity, CatalogQuery,
    ConnectionProfile, ConnectorError, ConnectorManifest, ConnectorStatus, DescriptionModel,
    EntityDescription, EntityModel, ErrorCategory, ErrorModel, ErrorPhase, Product, SecretMaterial,
};
use crate::sql::identifier::SqlFamily;
use crate::sql::limits::{
    auth_error, required_secret, secret_result, tls_error, validate_auth, validate_tls,
};
use crate::sql::mysql::{
    is_pair_result, mismatch_error, product_mismatch, relational_capabilities,
    relational_capability_list,
};
use crate::sql::mysql_catalog::{anywhere, optional_string_value, pattern_anywhere, text_or_null};
use crate::sql::mysql_options::port_or;
use crate::sql::postgres_values::{build_tls_config, tls_config_result};
use crate::sql::sql_server::{
    entity_result, server_name_error, split_schema_entity, validate_server_name,
};
use crate::sql::statement::{BuiltQuery, QueryModel};
use crate::text::{
    begins_with, borrowed, characters, clone_optional, contains_text, equal_ignoring_case, lower,
    occurs_in, optional_text, same, same_ignoring_case, same_optional, slice_text, starts_with,
    texts, to_lower,
};
use crate::value::{record_of, records, DbRecord, DbValue, RecordModel, ValueModel};
use vstd::prelude::*;

verus! {

broadcast use {crate::text::group_texts, crate::value::group_models};

/// The products that speak the PostgreSQL protocol.
#[derive(Debug, Clone, Copy, PartialEq, Eq, Structural)]
pub enum PostgresFlavor {
    PostgreSql,
    CockroachDb,
    YugabyteYsql,
}

/// A connector for a product that speaks the PostgreSQL protocol.
#[derive(Debug, Clone, Copy)]
pub struct PostgresConnector {
    pub flavor: PostgresFlavor,
}

/// The name of a product.
pub open spec fn product_name(flavor: PostgresFlavor) -> Seq<char> {
    match flavor {
        PostgresFlavor::PostgreSql => "PostgreSQL"@,
        PostgresFlavor::CockroachDb => "CockroachDB"@,
        PostgresFlavor::YugabyteYsql => "YugabyteDB"@,
    }
}

/// The name of a product.
pub fn flavor_name(flavor: PostgresFlavor) -> (result: &'static str)
    ensures
        result@ == product_name(flavor),
{
    match flavor {
        PostgresFlavor::PostgreSql => "PostgreSQL",
        PostgresFlavor::CockroachDb => "CockroachDB",
        PostgresFlavor::YugabyteYsql => "YugabyteDB",
    }
}

/// The mode in which a product is spoken to.
pub open spec fn product_mode(flavor: PostgresFlavor) -> Seq<char> {
    match flavor {
        PostgresFlavor::YugabyteYsql => "ysql"@,
        _ => "postgresql"@,
    }
}

/// The mode in which a product is spoken to.
pub fn api_mode(flavor: PostgresFlavor) -> (result: &'static str)
    ensures
        result@ == product_mode(flavor),
{
    match flavor {
        PostgresFlavor::YugabyteYsql => "ysql",
        _ => "postgresql",
    }
}

/// The dialect in which a product updates and deletes.
pub fn structured_write_family(flavor: PostgresFlavor) -> (result: SqlFamily)
    ensures
        result == (if flavor == PostgresFlavor::PostgreSql {
            SqlFamily::PostgreSql
        } else {
            SqlFamily::PostgreSqlCompatible
        }),
{
    match flavor {
        PostgresFlavor::PostgreSql => SqlFamily::PostgreSql,
        _ => SqlFamily::PostgreSqlCompatible,
    }
}

/// The identity of a product's connector.
pub open spec fn connector_id(flavor: PostgresFlavor) -> Seq<char> {
    match flavor {
        PostgresFlavor::PostgreSql => "postgresql-pgwire"@,
        PostgresFlavor::CockroachDb => "cockroachdb-pgwire"@,
        PostgresFlavor::YugabyteYsql => "yugabytedb-ysql"@,
    }
}

/// The product of a flavor.
pub open spec fn flavor_product(flavor: PostgresFlavor) -> Product {
    match flavor {
        PostgresFlavor::PostgreSql => Product::PostgreSql,
        PostgresFlavor::CockroachDb => Product::CockroachDb,
        PostgresFlavor::YugabyteYsql => Product::YugabyteDb,
    }
}

/// Whether a profile is for the product of a flavor, in a mode that it has.
pub open spec fn serves(flavor: PostgresFlavor, profile: ConnectionProfile) -> bool {
    let mode = profile.api_mode@;
    &&& profile.product == flavor_product(flavor)
    &&& mode == "postgresql"@ || mode == "pgwire"@ || (flavor == PostgresFlavor::PostgreSql
        && mode == "postgres"@) || (flavor == PostgresFlavor::YugabyteYsql && mode == "ysql"@)
}

/// The error of a profile that the connector of a flavor refuses.
pub open spec fn profile_error(flavor: PostgresFlavor, profile: ConnectionProfile) -> Option<
    ErrorModel,
> {
    if !serves(flavor, profile) {
        Some(
            invalid_request(
                "profile product/api_mode does not match connector `"@ + connector_id(flavor)
                    + "`"@,
            ),
        )
    } else if tls_error(profile) is Some {
        tls_error(profile)
    } else if profile.auth_kind == AuthKind::ClientCertificate && (!profile.tls.enabled
        || profile.tls.client_certificate_ref is None) {
        Some(
            invalid_request(
                "PostgreSQL client-certificate authentication requires TLS and tls.client_certificate_ref"@,
            ),
        )
    } else {
        server_name_error(
            profile,
            "PostgreSQL endpoint must include a host"@,
            "the PostgreSQL driver requires tls.server_name to match the endpoint host"@,
        )
    }
}

/// The limitations that the connector of a flavor states.
pub open spec fn limitation_list(flavor: PostgresFlavor) -> Seq<Seq<char>> {
    match flavor {
        PostgresFlavor::PostgreSql => seq![
            "native SQL must be one SELECT/WITH or one INSERT/UPDATE/DELETE statement without a semicolon"@,
        ].push("structured update/delete use PostgreSQL ctid to enforce max_affected"@),
        PostgresFlavor::CockroachDb => seq![
            "uses CockroachDB's PostgreSQL wire compatibility; PostgreSQL-only SQL is not implied"@,
        ].push(
            "structured update/delete use a transaction and roll back when the affected count exceeds max_affected"@,
        ),
        PostgresFlavor::YugabyteYsql => seq![
            "uses YugabyteDB YSQL's PostgreSQL wire compatibility; YCQL is a separate connector"@,
        ].push(
            "structured update/delete use a transaction and roll back when the affected count exceeds max_affected"@,
        ),
    }
}

impl PostgresConnector {
    /// The connector for PostgreSQL.
    pub fn postgresql() -> (result: PostgresConnector)
        ensures
            result.flavor == PostgresFlavor::PostgreSql,
    {
        PostgresConnector { flavor: PostgresFlavor::PostgreSql }
    }

    /// The connector for CockroachDB.
    pub fn cockroachdb() -> (result: PostgresConnector)
        ensures
            result.flavor == PostgresFlavor::CockroachDb,
    {
        PostgresConnector { flavor: PostgresFlavor::CockroachDb }
    }

    /// The connector for YugabyteDB.
    pub fn yugabyte_ysql() -> (result: PostgresConnector)
        ensures
            result.flavor == PostgresFlavor::YugabyteYsql,
    {
        PostgresConnector { flavor: PostgresFlavor::YugabyteYsql }
    }

    /// What the connector says of itself.
    pub fn manifest(&self) -> (result: ConnectorManifest)
        ensures
            result.id@ == connector_id(self.flavor),
            result.display_name@ == (match self.flavor {
                PostgresFlavor::PostgreSql => "PostgreSQL"@,
                PostgresFlavor::CockroachDb => "CockroachDB"@,
                PostgresFlavor::YugabyteYsql => "YugabyteDB YSQL"@,
            }),
            result.product == flavor_product(self.flavor),
            result.api_mode@ == product_mode(self.flavor),
            result.driver@ == "tokio-postgres"@,
            result.driver_version@ == "0.7.15"@,
            result.status == ConnectorStatus::Experimental,
            result.capabilities@ == relational_capability_list(),
            result.auth_kinds@ == seq![AuthKind::UsernamePassword].push(
                AuthKind::ConnectionString,
            ).push(AuthKind::ClientCertificate),
            texts(result.limitations@) == limitation_list(self.flavor),
    {
        let mut limitations: Vec<String> = Vec::new();
        let (id, display_name, product): (&str, &str, Product) = match self.flavor {
            PostgresFlavor::PostgreSql => {
                limitations.push(
                    "native SQL must be one SELECT/WITH or one INSERT/UPDATE/DELETE statement without a semicolon".to_owned(),
                );
                limitations.push(
                    "structured update/delete use PostgreSQL ctid to enforce max_affected".to_owned(),
                );
                ("postgresql-pgwire", "PostgreSQL", Product::PostgreSql)
            },
            PostgresFlavor::CockroachDb => {
                limitations.push(
                    "uses CockroachDB's PostgreSQL wire compatibility; PostgreSQL-only SQL is not implied".to_owned(),
                );
                limitations.push(
                    "structured update/delete use a transaction and roll back when the affected count exceeds max_affected".to_owned(),
                );
                ("cockroachdb-pgwire", "CockroachDB", Product::CockroachDb)
            },
            PostgresFlavor::YugabyteYsql => {
                limitations.push(
                    "uses YugabyteDB YSQL's PostgreSQL wire compatibility; YCQL is a separate connector".to_owned(),
                );
                limitations.push(
                    "structured update/delete use a transaction and roll back when the affected count exceeds max_affected".to_owned(),
                );
                ("yugabytedb-ysql", "YugabyteDB YSQL", Product::YugabyteDb)
            },
        };
        let mut auth_kinds: Vec<AuthKind> = Vec::new();
        auth_kinds.push(AuthKind::UsernamePassword);
        auth_kinds.push(AuthKind::ConnectionString);
        auth_kinds.push(AuthKind::ClientCertificate);
        ConnectorManifest {
            id: id.to_owned(),
            display_name: display_name.to_owned(),
            product,
            api_mode: api_mode(self.flavor).to_owned(),
            driver: "tokio-postgres".to_owned(),
            driver_version: "0.7.15".to_owned(),
            status: ConnectorStatus::Experimental,
            capabilities: relational_capabilities(),
            auth_kinds,
            limitations,
        }
    }

    /// Refuses profiles that are not for this connector.
    pub fn validate_profile(&self, profile: &ConnectionProfile) -> (result: Result<
        (),
        ConnectorError,
    >)
        ensures
            crate::model::error_of(result) == profile_error(self.flavor, *profile),
    {
        let mode = profile.api_mode.as_str();
        let (product, id): (Product, &str) = match self.flavor {
            PostgresFlavor::PostgreSql => (Product::PostgreSql, "postgresql-pgwire"),
            PostgresFlavor::CockroachDb => (Product::CockroachDb, "cockroachdb-pgwire"),
            PostgresFlavor::YugabyteYsql => (Product::YugabyteDb, "yugabytedb-ysql"),
        };
        let known_mode = same(mode, "postgresql") || same(mode, "pgwire") || (self.flavor
            == PostgresFlavor::PostgreSql && same(mode, "postgres")) || (self.flavor
            == PostgresFlavor::YugabyteYsql && same(mode, "ysql"));
        if profile.product != product || !known_mode {
            let message = framed("profile product/api_mode does not match connector `", id, "`");
            return Err(invalid(message.as_str()));
        }
        match validate_tls(profile) {
            Err(error) => {
                return Err(error);
            },
            Ok(()) => {},
        }
        if profile.auth_kind == AuthKind::ClientCertificate && (!profile.tls.enabled
            || profile.tls.client_certificate_ref.is_none()) {
            return Err(
                invalid(
                    "PostgreSQL client-certificate authentication requires TLS and tls.client_certificate_ref",
                ),
            );
        }
        validate_server_name(
            profile,
            "PostgreSQL endpoint must include a host",
            "the PostgreSQL driver requires tls.server_name to match the endpoint host",
        )
    }

    /// Refuses a profile and a credential with which no connection could be made.
    pub fn validate_connection_input(
        &self,
        profile: &ConnectionProfile,
        secret: &SecretMaterial,
    ) -> (result: Result<(), ConnectorError>)
        ensures
            error_of(result) == first_error(
                profile_error(self.flavor, *profile),
                first_error(
                    auth_error(*profile, secret.kind),
                    first_error(
                        failing(config_result(*profile, secret.kind, secret.fields@)),
                        if profile.tls.enabled {
                            failing(tls_config_result(*profile, secret.fields@))
                        } else {
                            None
                        },
                    ),
                ),
            ),
    {
        match self.validate_profile(profile) {
            Err(error) => {
                return Err(error);
            },
            Ok(_) => {},
        }
        match validate_auth(profile, secret) {
            Err(error) => {
                return Err(error);
            },
            Ok(_) => {},
        }
        match build_config(profile, secret) {
            Err(error) => {
                return Err(error);
            },
            Ok(_) => {},
        }
        if profile.tls.enabled {
            match build_tls_config(profile, secret) {
                Err(error) => {
                    return Err(error);
                },
                Ok(_) => {},
            }
        }
        Ok(())
    }
}

/// The product that a server's version names, if it names one.
pub open spec fn detected_product(version: Seq<char>) -> Option<Seq<char>> {
    if occurs_in("cockroachdb"@, lower(version)) {
        Some("CockroachDB"@)
    } else if occurs_in("yugabyte"@, lower(version)) || occurs_in("-yb-"@, lower(version)) {
        Some("YugabyteDB"@)
    } else {
        None
    }
}

/// The error of a server that is not of the product of a flavor.
pub open spec fn server_error(flavor: PostgresFlavor, version: Seq<char>) -> Option<ErrorModel> {
    let detected = detected_product(version);
    let expected = match flavor {
        PostgresFlavor::PostgreSql => detected is None,
        PostgresFlavor::CockroachDb => detected == Some("CockroachDB"@),
        PostgresFlavor::YugabyteYsql => detected == Some("YugabyteDB"@),
    };
    if expected {
        None
    } else {
        Some(product_mismatch(product_name(flavor), detected))
    }
}

/// Refuses a server that is not of the product of a flavor.
pub fn verify_server_flavor(flavor: PostgresFlavor, version: &str) -> (result: Result<
    (),
    ConnectorError,
>)
    ensures
        crate::model::error_of(result) == server_error(flavor, version@),
{
    proof {
        reveal_strlit("CockroachDB");
        reveal_strlit("YugabyteDB");
        assert("CockroachDB"@.len() == 11);
        assert("YugabyteDB"@.len() == 10);
    }
    let version = to_lower(version);
    if contains_text(version.as_str(), "cockroachdb") {
        if flavor == PostgresFlavor::CockroachDb {
            return Ok(());
        }
        return Err(mismatch_error(flavor_name(flavor), Some("CockroachDB")));
    }
    if contains_text(version.as_str(), "yugabyte") || contains_text(version.as_str(), "-yb-") {
        if flavor == PostgresFlavor::YugabyteYsql {
            return Ok(());
        }
        return Err(mismatch_error(flavor_name(flavor), Some("YugabyteDB")));
    }
    if flavor == PostgresFlavor::PostgreSql {
        return Ok(());
    }
    Err(mismatch_error(flavor_name(flavor), None))
}

/// The schema and table of an entity id, `public` where only a table is named.
pub fn split_pg_entity(entity: &str) -> (result: Result<(String, String), ConnectorError>)
    ensures
        is_pair_result(
            result,
            entity_result(entity@, "public"@, "PostgreSQL entity must use `schema.table`"@),
        ),
{
    split_schema_entity(entity, "public", "PostgreSQL entity must use `schema.table`")
}

/// Whether a character is a square bracket.
pub open spec fn is_bracket(c: char) -> bool {
    c == '[' || c == ']'
}

/// A text without the brackets at its start.
pub open spec fn after_brackets(text: Seq<char>) -> Seq<char>
    decreases text.len(),
{
    if text.len() > 0 && is_bracket(text[0]) {
        after_brackets(text.subrange(1, text.len() as int))
    } else {
        text
    }
}

/// A text without the brackets at its end.
pub open spec fn before_brackets(text: Seq<char>) -> Seq<char>
    decreases text.len(),
{
    if text.len() > 0 && is_bracket(text.last()) {
        before_brackets(text.drop_last())
    } else {
        text
    }
}

/// A host without the brackets around it.
pub open spec fn bare_host(text: Seq<char>) -> Seq<char> {
    before_brackets(after_brackets(text))
}

/// A host without the brackets around it.
fn trim_brackets(text: &str) -> (result: String)
    ensures
        result@ == bare_host(text@),
{
    let chars = characters(text);
    let mut start: usize = 0;
    assert(chars@.subrange(0, chars@.len() as int) =~= chars@);
    while start < chars.len() && (chars[start] == '[' || chars[start] == ']')
        invariant
            start <= chars@.len(),
            chars@ == text@,
            after_brackets(text@) == after_brackets(
                chars@.subrange(start as int, chars@.len() as int),
            ),
        decreases chars@.len() - start,
    {
        let ghost rest = chars@.subrange(start as int, chars@.len() as int);
        assert(rest[0] == chars@[start as int]);
        assert(rest.subrange(1, rest.len() as int) =~= chars@.subrange(
            start + 1,
            chars@.len() as int,
        ));
        start = start + 1;
    }
    let ghost kept = chars@.subrange(start as int, chars@.len() as int);
    assert(after_brackets(text@) == kept) by {
        if kept.len() > 0 {
            assert(kept[0] == chars@[start as int]);
        }
    }
    let mut end: usize = chars.len();
    assert(chars@.subrange(start as int, end as int) =~= kept);
    while end > start && (chars[end - 1] == '[' || chars[end - 1] == ']')
        invariant
            start <= end <= chars@.len(),
            chars@ == text@,
            kept == chars@.subrange(start as int, chars@.len() as int),
            before_brackets(kept) == before_brackets(chars@.subrange(start as int, end as int)),
        decreases end - start,
    {
        let ghost rest = chars@.subrange(start as int, end as int);
        assert(rest.drop_last() =~= chars@.subrange(start as int, end - 1));
        assert(rest.last() == chars@[end - 1]);
        end = end - 1;
    }
    proof {
        let rest = chars@.subrange(start as int, end as int);
        if rest.len() > 0 {
            assert(rest.last() == chars@[end - 1]);
        }
    }
    slice_text(&chars, start, end)
}

/// Whether two hosts are the same, with or without brackets and in any case.
pub fn same_host(left: &str, right: &str) -> (result: bool)
    ensures
        result == same_ignoring_case(bare_host(left@), bare_host(right@)),
{
    let left = trim_brackets(left);
    let right = trim_brackets(right);
    equal_ignoring_case(left.as_str(), right.as_str())
}

/// What a connection string says.
#[derive(Debug)]
pub struct PgConnectionString {
    /// The hosts; `None` for a socket.
    pub hosts: Vec<Option<String>>,
    pub has_addresses: bool,
    pub ports: Vec<u16>,
    pub database: Option<String>,
}

/// What a [`PgConnectionString`] is.
pub struct PgStringModel {
    pub hosts: Seq<Option<Seq<char>>>,
    pub has_addresses: bool,
    pub ports: Seq<u16>,
    pub database: Option<Seq<char>>,
}

impl View for PgConnectionString {
    type V = PgStringModel;

    open spec fn view(&self) -> PgStringModel {
        PgStringModel {
            hosts: Seq::new(self.hosts@.len(), |i: int| optional_text(self.hosts@[i])),
            has_addresses: self.has_addresses,
            ports: self.ports@,
            database: optional_text(self.database),
        }
    }
}

/// What the driver reads from a connection string.
pub uninterp spec fn pg_connection_string(text: Seq<char>) -> Option<PgStringModel>;

/// `tokio_postgres::Config::from_str`, by its hosts, whether it has addresses, its ports and its
/// database.
#[verifier::external_body]
fn read_pg_connection_string(text: &str) -> (result: Option<PgConnectionString>)
    ensures
        match (result, pg_connection_string(text@)) {
            (Some(parsed), Some(wanted)) => parsed@ == wanted,
            (None, None) => true,
            _ => false,
        },
{
    let config: tokio_postgres::Config = text.parse().ok()?;
    Some(PgConnectionString {
        hosts: config.get_hosts().iter().map(|host| match host {
            tokio_postgres::config::Host::Tcp(name) => Some(name.clone()),
            _ => None,
        }).collect(),
        has_addresses: !config.get_hostaddrs().is_empty(),
        ports: config.get_ports().to_vec(),
        database: config.get_dbname().map(str::to_owned),
    })
}

/// The error of a connection string that leads elsewhere than the profile, or that could bypass
/// it.
pub open spec fn string_target_error(
    profile: ConnectionProfile,
    parsed: PgStringModel,
) -> Option<ErrorModel> {
    match optional_text(profile.endpoint.host) {
        None => Some(invalid_request("PostgreSQL endpoint must include a host"@)),
        Some(expected) => if parsed.hosts.len() != 1 || parsed.hosts[0] is None {
            Some(
                invalid_request(
                    "PostgreSQL connection string must contain exactly one TCP host matching the profile endpoint"@,
                ),
            )
        } else if !same_ignoring_case(bare_host(parsed.hosts[0]->0), bare_host(expected)) {
            Some(
                invalid_request(
                    "PostgreSQL connection string host does not match the profile endpoint"@,
                ),
            )
        } else if parsed.has_addresses {
            Some(
                invalid_request(
                    "PostgreSQL connection string hostaddr is not allowed because it can bypass the profile endpoint"@,
                ),
            )
        } else if parsed.ports.len() > 1 {
            Some(
                invalid_request("PostgreSQL connection string must contain at most one port"@),
            )
        } else if (if parsed.ports.len() == 1 {
            parsed.ports[0]
        } else {
            5432
        }) != port_or(profile.endpoint.port, 5432) {
            Some(
                invalid_request(
                    "PostgreSQL connection string port does not match the profile endpoint"@,
                ),
            )
        } else if parsed.database != optional_text(profile.database) {
            Some(
                invalid_request(
                    "PostgreSQL connection string database does not match profile.database"@,
                ),
            )
        } else {
            None
        },
    }
}

/// Refuses a connection string that leads elsewhere than the profile.
pub fn validate_connection_string_target(
    profile: &ConnectionProfile,
    parsed: &PgConnectionString,
) -> (result: Result<(), ConnectorError>)
    ensures
        crate::model::error_of(result) == string_target_error(*profile, parsed@),
{
    let expected = match &profile.endpoint.host {
        None => {
            return Err(invalid("PostgreSQL endpoint must include a host"));
        },
        Some(host) => host,
    };
    if parsed.hosts.len() != 1 {
        return Err(
            invalid(
                "PostgreSQL connection string must contain exactly one TCP host matching the profile endpoint",
            ),
        );
    }
    assert(parsed@.hosts[0] == optional_text(parsed.hosts@[0]));
    match &parsed.hosts[0] {
        None => {
            return Err(
                invalid(
                    "PostgreSQL connection string must contain exactly one TCP host matching the profile endpoint",
                ),
            );
        },
        Some(host) => {
            if !same_host(host.as_str(), expected.as_str()) {
                return Err(
                    invalid(
                        "PostgreSQL connection string host does not match the profile endpoint",
                    ),
                );
            }
        },
    }
    if parsed.has_addresses {
        return Err(
            invalid(
                "PostgreSQL connection string hostaddr is not allowed because it can bypass the profile endpoint",
            ),
        );
    }
    if parsed.ports.len() > 1 {
        return Err(invalid("PostgreSQL connection string must contain at most one port"));
    }
    let port: u16 = if parsed.ports.len() == 1 {
        parsed.ports[0]
    } else {
        5432
    };
    let expected_port: u16 = match profile.endpoint.port {
        Some(port) => port,
        None => 5432,
    };
    if port != expected_port {
        return Err(
            invalid("PostgreSQL connection string port does not match the profile endpoint"),
        );
    }
    if !same_optional(borrowed(&parsed.database), borrowed(&profile.database)) {
        return Err(
            invalid("PostgreSQL connection string database does not match profile.database"),
        );
    }
    Ok(())
}

/// Where a connection goes and who opens it.
#[derive(Debug)]
pub enum PgTarget {
    /// As a connection string says.
    ConnectionString(String),
    /// To the endpoint of the profile.
    Endpoint {
        host: String,
        port: u16,
        user: String,
        password: Option<String>,
        database: Option<String>,
    },
}

/// What a [`PgTarget`] is.
pub enum PgTargetModel {
    ConnectionString(Seq<char>),
    Endpoint {
        host: Seq<char>,
        port: u16,
        user: Seq<char>,
        password: Option<Seq<char>>,
        database: Option<Seq<char>>,
    },
}

impl View for PgTarget {
    type V = PgTargetModel;

    open spec fn view(&self) -> PgTargetModel {
        match *self {
            PgTarget::ConnectionString(text) => PgTargetModel::ConnectionString(text@),
            PgTarget::Endpoint { host, port, user, password, database } =>
                PgTargetModel::Endpoint {
                host: host@,
                port,
                user: user@,
                password: optional_text(password),
                database: optional_text(database),
            },
        }
    }
}

/// The target of a connection.
pub open spec fn config_result(
    profile: ConnectionProfile,
    kind: AuthKind,
    fields: Seq<(Seq<char>, Seq<char>)>,
) -> Result<PgTargetModel, ErrorModel> {
    match kind {
        AuthKind::ConnectionString => match secret_result(fields, "connection_string"@) {
            Err(error) => Err(error),
            Ok(text) => match pg_connection_string(text) {
                None => Err(invalid_request("PostgreSQL connection string is invalid"@)),
                Some(parsed) => match string_target_error(profile, parsed) {
                    Some(error) => Err(error),
                    None => Ok(PgTargetModel::ConnectionString(text)),
                },
            },
        },
        AuthKind::UsernamePassword | AuthKind::ClientCertificate => match optional_text(
            profile.endpoint.host,
        ) {
            None => Err(invalid_request("PostgreSQL endpoint must include a host"@)),
            Some(host) => match secret_result(fields, "username"@) {
                Err(error) => Err(error),
                Ok(user) => if kind == AuthKind::UsernamePassword && secret_result(
                    fields,
                    "password"@,
                ) is Err {
                    Err(secret_result(fields, "password"@)->Err_0)
                } else {
                    Ok(
                        PgTargetModel::Endpoint {
                            host,
                            port: port_or(profile.endpoint.port, 5432),
                            user,
                            password: if kind == AuthKind::UsernamePassword {
                                Some(secret_result(fields, "password"@)->Ok_0)
                            } else {
                                None
                            },
                            database: optional_text(profile.database),
                        },
                    )
                },
            },
        },
        _ => Err(
            unsupported_request(
                "PostgreSQL supports username/password, connection string, or client-certificate authentication"@,
            ),
        ),
    }
}

/// How a connection is opened.
#[derive(Debug)]
pub struct PgConfig {
    pub target: PgTarget,
    /// Whether TLS is required; otherwise it is not used.
    pub encrypted: bool,
}

/// Decides how a connection is opened.
pub fn build_config(profile: &ConnectionProfile, secret: &SecretMaterial) -> (result: Result<
    PgConfig,
    ConnectorError,
>)
    ensures
        match (result, config_result(*profile, secret.kind, secret.fields@)) {
            (Ok(config), Ok(wanted)) => config.target@ == wanted && config.encrypted
                == profile.tls.enabled,
            (Err(error), Err(wanted)) => error@ == wanted,
            _ => false,
        },
{
    let target = match secret.kind {
        AuthKind::ConnectionString => {
            let text = match required_secret(secret, "connection_string") {
                Err(error) => {
                    return Err(error);
                },
                Ok(text) => text,
            };
            let parsed = match read_pg_connection_string(text) {
                None => {
                    return Err(invalid("PostgreSQL connection string is invalid"));
                },
                Some(parsed) => parsed,
            };
            match validate_connection_string_target(profile, &parsed) {
                Err(error) => {
                    return Err(error);
                },
                Ok(()) => PgTarget::ConnectionString(text.to_owned()),
            }
        },
        AuthKind::UsernamePassword | AuthKind::ClientCertificate => {
            let host = match &profile.endpoint.host {
                None => {
                    return Err(invalid("PostgreSQL endpoint must include a host"));
                },
                Some(host) => host.clone(),
            };
            let port: u16 = match profile.endpoint.port {
                Some(port) => port,
                None => 5432,
            };
            let user = match required_secret(secret, "username") {
                Err(error) => {
                    return Err(error);
                },
                Ok(user) => user.to_owned(),
            };
            let password = if secret.kind == AuthKind::UsernamePassword {
                match required_secret(secret, "password") {
                    Err(error) => {
                        return Err(error);
                    },
                    Ok(password) => Some(password.to_owned()),
                }
            } else {
                None
            };
            PgTarget::Endpoint {
                host,
                port,
                user,
                password,
                database: clone_optional(&profile.database),
            }
        },
        _ => {
            return Err(
                unsupported(
                    "PostgreSQL supports username/password, connection string, or client-certificate authentication",
                ),
            );
        },
    };
    Ok(PgConfig { target, encrypted: profile.tls.enabled })
}

/// A query whose rows are returned as JSON objects.
pub open spec fn json_rows_sql(sql: Seq<char>) -> Seq<char> {
    "SELECT to_jsonb(\"__mcp_row\") FROM ("@ + sql + ") AS \"__mcp_row\""@
}

/// Makes a query return its rows as JSON objects.
pub fn wrap_rows(sql: &str) -> (result: String)
    ensures
        result@ == json_rows_sql(sql@),
{
    framed("SELECT to_jsonb(\"__mcp_row\") FROM (", sql, ") AS \"__mcp_row\"")
}

/// The statement that searches the catalog.
pub const POSTGRES_SEARCH: &'static str =
    "SELECT table_schema, table_name, table_type FROM information_schema.tables WHERE \
    ($1::text IS NULL OR table_schema = $1) AND ($2::text IS NULL OR table_name ILIKE \
    $2) ORDER BY table_schema, table_name LIMIT $3 OFFSET $4";

/// The catalog search: the server counts its offset with a sign.
pub open spec fn pg_catalog_result(query: CatalogQuery, limit: u32, offset: u64) -> Result<
    QueryModel,
    ErrorModel,
> {
    if offset > i64::MAX {
        Err(invalid_request("catalog cursor offset is too large"@))
    } else {
        Ok(
            QueryModel {
                sql: POSTGRES_SEARCH@,
                parameters: seq![text_or_null(optional_text(query.namespace))].push(
                    text_or_null(anywhere(optional_text(query.pattern))),
                ).push(ValueModel::Int64(limit as i64)).push(ValueModel::Int64(offset as i64)),
                row_limit: None,
                base_offset: None,
            },
        )
    }
}

/// Builds the statement that searches the catalog.
pub fn pg_catalog_query(query: &CatalogQuery, limit: u32, offset: u64) -> (result: Result<
    BuiltQuery,
    ConnectorError,
>)
    ensures
        crate::sql::statement::is_query_result(result, pg_catalog_result(*query, limit, offset)),
{
    if offset > 0x7fff_ffff_ffff_ffff {
        return Err(invalid("catalog cursor offset is too large"));
    }
    let pattern = pattern_anywhere(&query.pattern);
    let mut parameters: Vec<DbValue> = Vec::new();
    parameters.push(optional_string_value(borrowed(&query.namespace)));
    parameters.push(optional_string_value(borrowed(&pattern)));
    parameters.push(DbValue::Int64(limit as i64));
    parameters.push(DbValue::Int64(offset as i64));
    Ok(
        BuiltQuery {
            sql: POSTGRES_SEARCH.to_owned(),
            parameters,
            row_limit: None,
            base_offset: None,
        },
    )
}

/// A column of a table: its name, type, whether it is nullable and its ordinal.
pub type ColumnRow = (String, String, String, i64);

/// The record of a column.
pub open spec fn column_record(row: ColumnRow) -> RecordModel {
    record_of(
        seq![("name"@, ValueModel::String(row.0@))].push(
            ("type"@, ValueModel::String(row.1@)),
        ).push(("nullable"@, ValueModel::Bool(row.2@ == "YES"@))).push(
            ("ordinal"@, ValueModel::Int64(row.3)),
        ),
    )
}

/// The description of a table that the catalog has columns of.
pub open spec fn pg_description(
    schema: Seq<char>,
    table: Seq<char>,
    rows: Seq<ColumnRow>,
) -> Result<DescriptionModel, ErrorModel> {
    if rows.len() == 0 {
        Err(failure(ErrorCategory::NotFound, "SQL entity was not found"@))
    } else {
        Ok(
            DescriptionModel {
                entity: EntityModel {
                    id: schema + "."@ + table,
                    namespace: Some(schema),
                    name: table,
                    kind: "table_or_view"@,
                    comment: None,
                },
                fields: Seq::new(rows.len(), |i: int| column_record(rows[i])),
                metadata: Seq::empty(),
                truncated: false,
                warnings: Seq::empty(),
            },
        )
    }
}

/// Describes a table by the rows of the catalog.
pub fn describe_pg_entity(schema: &str, table: &str, rows: &Vec<ColumnRow>) -> (result: Result<
    EntityDescription,
    ConnectorError,
>)
    ensures
        is_description_result(result, pg_description(schema@, table@, rows@)),
{
    if rows.len() == 0 {
        return Err(ConnectorError::new(ErrorCategory::NotFound, "SQL entity was not found"));
    }
    let mut fields: Vec<DbRecord> = Vec::new();
    let mut i: usize = 0;
    while i < rows.len()
        invariant
            i <= rows@.len(),
            fields@.len() == i,
            forall|j: int| 0 <= j < i ==> (#[trigger] fields@[j])@ == column_record(rows@[j]),
        decreases rows@.len() - i,
    {
        let row = &rows[i];
        let mut record = DbRecord::new();
        record.insert("name".to_owned(), DbValue::String(row.0.clone()));
        record.insert("type".to_owned(), DbValue::String(row.1.clone()));
        record.insert("nullable".to_owned(), DbValue::Bool(same(row.2.as_str(), "YES")));
        record.insert("ordinal".to_owned(), DbValue::Int64(row.3));
        fields.push(record);
        i = i + 1;
    }
    assert(records(fields@) =~= Seq::new(rows@.len(), |i: int| column_record(rows@[i])));
    Ok(
        EntityDescription {
            entity: CatalogEntity {
                id: framed(schema, ".", table),
                namespace: Some(schema.to_owned()),
                name: table.to_owned(),
                kind: "table_or_view".to_owned(),
                comment: None,
            },
            fields,
            metadata: DbRecord::new(),
            truncated: false,
            warnings: Vec::new(),
        },
    )
}

/// How the driver failed: whether the connection was closed, whether TLS or the network was the
/// cause, and the SQLSTATE where the server gave one.
#[derive(Debug)]
pub struct PgFailure {
    pub closed: bool,
    pub tls: bool,
    pub network: bool,
    pub code: Option<String>,
}

/// The category of an SQLSTATE.
pub open spec fn state_category(code: Seq<char>, write: bool) -> ErrorCategory {
    if begins_with(code, "28"@) {
        ErrorCategory::Authentication
    } else if code == "42501"@ {
        ErrorCategory::PermissionDenied
    } else if begins_with(code, "23"@) || begins_with(code, "40"@) {
        ErrorCategory::Conflict
    } else if code == "57014"@ {
        ErrorCategory::Cancelled
    } else if begins_with(code, "08"@) {
        if write {
            ErrorCategory::UnknownOutcome
        } else {
            ErrorCategory::Unavailable
        }
    } else if begins_with(code, "42"@) || begins_with(code, "22"@) {
        ErrorCategory::InvalidRequest
    } else {
        ErrorCategory::Protocol
    }
}

/// The category of a failure that leaves the outcome of a write open.
pub open spec fn open_category(write: bool, otherwise: ErrorCategory) -> ErrorCategory {
    if write {
        ErrorCategory::UnknownOutcome
    } else {
        otherwise
    }
}

/// The error of a failure of the driver.
pub open spec fn pg_error(cause: PgFailure, write: bool) -> ErrorModel {
    if cause.closed {
        ErrorModel {
            retryable: !write,
            phase: if cause.tls {
                ErrorPhase::Tls
            } else {
                ErrorPhase::Network
            },
            ..failure(
                open_category(write, ErrorCategory::Unavailable),
                "PostgreSQL connection closed while processing the request"@,
            )
        }
    } else {
        match cause.code {
            None => if !cause.tls && cause.network {
                ErrorModel {
                    retryable: !write,
                    phase: ErrorPhase::Network,
                    ..failure(
                        open_category(write, ErrorCategory::Unavailable),
                        "PostgreSQL network request failed"@,
                    )
                }
            } else {
                ErrorModel {
                    phase: if cause.tls {
                        ErrorPhase::Tls
                    } else {
                        ErrorPhase::Unspecified
                    },
                    ..failure(
                        open_category(write, ErrorCategory::Protocol),
                        "PostgreSQL driver rejected the request"@,
                    )
                }
            },
            Some(code) => ErrorModel {
                code: Some(code@),
                retryable: begins_with(code@, "08"@) && !write,
                ..failure(
                    state_category(code@, write),
                    "PostgreSQL request failed with SQLSTATE "@ + code@,
                )
            },
        }
    }
}

/// The error of a failure of the driver.
pub fn map_pg_error(cause: &PgFailure, write: bool) -> (result: ConnectorError)
    ensures
        result@ == pg_error(*cause, write),
{
    if cause.closed {
        return ConnectorError::new(
            if write {
                ErrorCategory::UnknownOutcome
            } else {
                ErrorCategory::Unavailable
            },
            "PostgreSQL connection closed while processing the request",
        ).retryable(!write).with_phase(
            if cause.tls {
                ErrorPhase::Tls
            } else {
                ErrorPhase::Network
            },
        );
    }
    let code = match &cause.code {
        None => {
            if !cause.tls && cause.network {
                return ConnectorError::new(
                    if write {
                        ErrorCategory::UnknownOutcome
                    } else {
                        ErrorCategory::Unavailable
                    },
                    "PostgreSQL network request failed",
                ).with_phase(ErrorPhase::Network).retryable(!write);
            }
            let error = ConnectorError::new(
                if write {
                    ErrorCategory::UnknownOutcome
                } else {
                    ErrorCategory::Protocol
                },
                "PostgreSQL driver rejected the request",
            );
            return if cause.tls {
                error.with_phase(ErrorPhase::Tls)
            } else {
                error
            };
        },
        Some(code) => code.as_str(),
    };
    let category = if starts_with(code, "28") {
        ErrorCategory::Authentication
    } else if same(code, "42501") {
        ErrorCategory::PermissionDenied
    } else if starts_with(code, "23") || starts_with(code, "40") {
        ErrorCategory::Conflict
    } else if same(code, "57014") {
        ErrorCategory::Cancelled
    } else if starts_with(code, "08") {
        if write {
            ErrorCategory::UnknownOutcome
        } else {
            ErrorCategory::Unavailable
        }
    } else if starts_with(code, "42") || starts_with(code, "22") {
        ErrorCategory::InvalidRequest
    } else {
        ErrorCategory::Protocol
    };
    let message = crate::model::appended("PostgreSQL request failed with SQLSTATE ", code);
    ConnectorError::new(category, message.as_str()).with_code(code).retryable(
        starts_with(code, "08") && !write,
    )
}

/// How a pool of connections failed.
#[derive(Debug)]
pub enum PoolFailure {
    Timeout,
    Closed,
    Other,
}

/// The error of a pool of connections.
pub open spec fn pool_error(product: Seq<char>, cause: PoolFailure) -> ErrorModel {
    match cause {
        PoolFailure::Timeout => failure(
            ErrorCategory::Timeout,
            product + " connection timed out"@,
        ),
        PoolFailure::Closed => ErrorModel {
            retryable: true,
            ..failure(
                ErrorCategory::Unavailable,
                product + " connection pool is unavailable"@,
            )
        },
        PoolFailure::Other => failure(
            ErrorCategory::Internal,
            product + " connection pool failed"@,
        ),
    }
}

/// The error of a pool of connections to a product.
pub fn map_pool_error(product: &str, cause: &PoolFailure) -> (result: ConnectorError)
    ensures
        result@ == pool_error(product@, *cause),
{
    match cause {
        PoolFailure::Timeout => {
            let message = crate::model::appended(product, " connection timed out");
            ConnectorError::new(ErrorCategory::Timeout, message.as_str())
        },
        PoolFailure::Closed => {
            let message = crate::model::appended(product, " connection pool is unavailable");
            ConnectorError::new(ErrorCategory::Unavailable, message.as_str()).retryable(true)
        },
        PoolFailure::Other => {
            let message = crate::model::appended(product, " connection pool failed");
            ConnectorError::new(ErrorCategory::Internal, message.as_str())
        },
    }
}

/// A connection string never leads elsewhere than the endpoint and the database of the profile.
pub proof fn lemma_connection_strings_stay_with_the_profile(
    profile: ConnectionProfile,
    fields: Seq<(Seq<char>, Seq<char>)>,
)
    ensures
        config_result(profile, AuthKind::ConnectionString, fields) matches Ok(target) ==> {
            &&& target matches PgTargetModel::ConnectionString(text)
            &&& pg_connection_string(text) matches Some(parsed)
            &&& parsed.hosts.len() == 1
            &&& parsed.hosts[0] matches Some(host)
            &&& profile.endpoint.host matches Some(expected)
            &&& same_ignoring_case(bare_host(host), bare_host(expected@))
            &&& !parsed.has_addresses
            &&& parsed.ports.len() <= 1
            &&& (parsed.ports.len() == 1 ==> parsed.ports[0] == port_or(profile.endpoint.port, 5432))
            &&& (parsed.ports.len() == 0 ==> port_or(profile.endpoint.port, 5432) == 5432)
            &&& parsed.database == optional_text(profile.database)
        },
{
}

} // verus!
