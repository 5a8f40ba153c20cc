//! Where the clients of SQL servers connect, as whom, and what they find there.
use crate::base_laws::{lemma_entries_are_found, lemma_parts_make_the_text};
use crate::budget::{kept_count, lemma_fitting, total};
use crate::model::{
    AuthKind, ConnectionProfile, ConnectorContext, ErrorCategory, ErrorModel, Product, WriteOutcome,
};
use crate::secret::{filled_field, first_filled};
use crate::sql::cursor::offset_cursor;
use crate::sql::identity::{
    mysql_identity, oracle_identity, postgres_identity, tds_identity, MySqlIdentity, TdsIdentity,
};
use crate::sql::limits::{auth_error, timeout_result, tls_error};
use crate::sql::mysql::{server_error, serves, MySqlFlavor};
use crate::sql::mysql_options::{options_result, target_result, tls_result, TargetModel};
use crate::sql::oracle::{fetch_size, service_result, sid_result, ServiceModel};
use crate::sql::oracle_values::{cell_text, CatalogCell};
use crate::sql::outcome::{read_outcome, write_outcome};
use crate::sql::plan::SqlProduct;
use crate::sql::postgres::{json_rows_sql, PgTargetModel, PostgresFlavor};
use crate::sql::sql_server::{is_affirmative, server_name_error, settings_error, TdsTargetModel};
use crate::sql::sql_server_catalog::{tds_parameter, tds_parameters, tds_row};
use crate::sql::transaction::{step_after, transaction_result};
use crate::text::{
    joined, lower, occurs_in, optional_text, parted, same_ignoring_case, split_on, trimmed, upper,
};
use crate::value::{named, RecordModel, ValueModel};
use vstd::prelude::*;

verus! {

/// Whether a name is made of a namespace and a table, or of a table alone in a default namespace.
pub open spec fn names_table(
    entity: Seq<char>,
    found: (Seq<char>, Seq<char>),
    default: Option<Seq<char>>,
) -> bool {
    &&& found.1.len() > 0
    &&& !found.1.contains('.')
    &&& (!found.0.contains('.') && found.0.len() > 0 && entity == found.0 + seq!['.'] + found.1) || (
    entity == found.1 && default == Some(found.0))
}

proof fn lemma_two_parts(text: Seq<char>)
    ensures
        ({
            let parts = split_on(text, '.');
            &&& parts.len() == 1 ==> text == parts[0]
            &&& parts.len() == 2 ==> text == parts[0] + seq!['.'] + parts[1]
            &&& forall|i: int| 0 <= i < parts.len() ==> !(#[trigger] parts[i]).contains('.')
        }),
{
    lemma_parts_make_the_text(text, '.');
    let parts = split_on(text, '.');
    reveal_with_fuel(joined, 3);
    if parts.len() == 1 {
        assert(parts =~= seq![parts[0]]);
        assert(joined(parts, seq!['.']) =~= parts[0]);
    }
    if parts.len() == 2 {
        assert(parts.drop_last() =~= seq![parts[0]]);
        assert(joined(parts, seq!['.']) =~= parts[0] + seq!['.'] + parts[1]);
    }
}

/// An entity is found by its own name, in its own namespace or in the default one.
pub proof fn lemma_entities_are_named(
    entity: Seq<char>,
    default: Option<Seq<char>>,
    schema: Seq<char>,
    message: Seq<char>,
)
    ensures
        crate::sql::mysql::entity_result(entity, default) matches Ok(found) ==> names_table(
            entity,
            found,
            default,
        ) && found.0.len() > 0,
        crate::sql::sql_server::entity_result(entity, schema, message) matches Ok(found)
            ==> names_table(entity, found, Some(schema)),
{
    lemma_two_parts(entity);
}

/// An entity of Oracle without an owner is that of the configured schema, or of the user, in capital
/// letters.
pub proof fn lemma_oracle_entities_are_named(
    entity: Seq<char>,
    profile: ConnectionProfile,
    fields: Seq<(Seq<char>, Seq<char>)>,
)
    ensures
        crate::sql::oracle::entity_result(entity, profile, fields) matches Ok(found) ==> {
            let owner = match crate::json::text_of(
                named(crate::value::members(profile.options@), "schema"@),
            ) {
                Some(schema) => Some(upper(schema)),
                None => match filled_field(fields, "username"@) {
                    Some(user) => Some(upper(user)),
                    None => None,
                },
            };
            names_table(entity, found, owner)
        },
{
    lemma_two_parts(entity);
}

/// Whether a client connects to the endpoint of its profile, as the user of the credential.
pub open spec fn connects(
    profile: ConnectionProfile,
    fields: Seq<(Seq<char>, Seq<char>)>,
    host: Seq<char>,
    port: u16,
    default_port: u16,
    user: Seq<char>,
) -> bool {
    &&& optional_text(profile.endpoint.host) == Some(host)
    &&& profile.endpoint.port matches Some(stated) ==> port == stated
    &&& profile.endpoint.port is None ==> port == default_port
    &&& filled_field(fields, "username"@) == Some(user)
}

/// A client of MySQL or PostgreSQL connects to the endpoint of its profile, to its database, and as
/// the user of the credential, with the password where the profile says so. A connection string is
/// used as it is.
pub proof fn lemma_clients_connect_to_their_profile(
    profile: ConnectionProfile,
    kind: AuthKind,
    fields: Seq<(Seq<char>, Seq<char>)>,
)
    ensures
        target_result(profile, kind, fields) matches Ok(target) ==> match target {
            TargetModel::Url(url) => kind is ConnectionString && filled_field(
                fields,
                "connection_string"@,
            ) == Some(url),
            TargetModel::Endpoint { host, port, user, password, database } => {
                &&& connects(profile, fields, host, port, 3306, user)
                &&& database == optional_text(profile.database)
                &&& kind is UsernamePassword || kind is ClientCertificate
                &&& password == (if kind is UsernamePassword {
                    filled_field(fields, "password"@)
                } else {
                    None
                })
                &&& kind is UsernamePassword ==> password is Some
            },
        },
        crate::sql::postgres::config_result(profile, kind, fields) matches Ok(target)
            ==> match target {
            PgTargetModel::ConnectionString(text) => kind is ConnectionString && filled_field(
                fields,
                "connection_string"@,
            ) == Some(text),
            PgTargetModel::Endpoint { host, port, user, password, database } => {
                &&& connects(profile, fields, host, port, 5432, user)
                &&& database == optional_text(profile.database)
                &&& kind is UsernamePassword || kind is ClientCertificate
                &&& password == (if kind is UsernamePassword {
                    filled_field(fields, "password"@)
                } else {
                    None
                })
                &&& kind is UsernamePassword ==> password is Some
            },
        },
{
}

/// A client of SQL Server or Oracle connects to the endpoint of its profile, as the user of the
/// credential and with its password, encrypted exactly where TLS is on.
pub proof fn lemma_further_clients_connect_to_their_profile(
    profile: ConnectionProfile,
    kind: AuthKind,
    fields: Seq<(Seq<char>, Seq<char>)>,
    timeout_ms: u64,
)
    ensures
        crate::sql::sql_server::config_result(profile, kind, fields) matches Ok((target, encrypted))
            ==> encrypted == profile.tls.enabled && match target {
            TdsTargetModel::ConnectionString(text) => kind is ConnectionString && filled_field(
                fields,
                "connection_string"@,
            ) == Some(text),
            TdsTargetModel::Endpoint { host, port, user, password, database } => {
                &&& kind is UsernamePassword
                &&& connects(profile, fields, host, port, 1433, user)
                &&& filled_field(fields, "password"@) == Some(password)
                &&& database == optional_text(profile.database)
            },
        },
        crate::sql::oracle::config_result(profile, kind, fields, timeout_ms) matches Ok(config) ==> {
            &&& filled_field(fields, "username"@) == Some(config.username)
            &&& filled_field(fields, "password"@) == Some(config.password)
            &&& config.timeout_ms == timeout_ms
            &&& config.tls is Some <==> profile.tls.enabled
            &&& config.tls matches Some(name) ==> name == optional_text(profile.tls.server_name)
            &&& kind is UsernamePassword ==> {
                &&& connects(
                    profile,
                    fields,
                    config.target.host,
                    config.target.port,
                    if profile.tls.enabled {
                        2484
                    } else {
                        1521
                    },
                    config.username,
                )
                &&& service_result(profile) matches Ok(service) && sid_result(profile) matches Ok(
                    sid,
                ) && config.target.service == if sid {
                    ServiceModel::Sid(service)
                } else {
                    ServiceModel::ServiceName(service)
                }
            }
        },
{
}

/// A client of MySQL encrypts exactly where TLS is on, and then uses the certificates that the
/// profile refers to, and no others.
pub proof fn lemma_certificates_are_used(
    profile: ConnectionProfile,
    kind: AuthKind,
    fields: Seq<(Seq<char>, Seq<char>)>,
    product: Seq<char>,
)
    ensures
        options_result(profile, kind, fields) matches Ok(options) ==> {
            &&& options.tls is Some <==> profile.tls.enabled
            &&& target_result(profile, kind, fields) == Ok::<TargetModel, ErrorModel>(options.target)
        },
        tls_result(product, profile, fields) matches Ok(tls) ==> {
            &&& tls.server_name == optional_text(profile.tls.server_name)
            &&& tls.ca_certificate is Some <==> profile.tls.ca_certificate_ref is Some
            &&& tls.client_identity is Some <==> profile.tls.client_certificate_ref is Some
            &&& tls.ca_certificate matches Some(pem) ==> filled_field(
                fields,
                profile.tls.ca_certificate_ref->0@,
            ) == Some(pem) || first_filled(fields, seq!["ca_certificate_pem"@]) == Some(pem)
            &&& tls.client_identity matches Some(pair) ==> {
                &&& filled_field(fields, profile.tls.client_certificate_ref->0@) == Some(pair.0)
                    || first_filled(fields, seq!["client_certificate_pem"@]) == Some(pair.0)
                &&& first_filled(
                    fields,
                    seq!["client_private_key_pem"@].push("private_key_pem"@),
                ) == Some(pair.1)
            }
        },
{
}

/// A connection string of SQL Server cannot turn off what protects the connection, in any of its
/// settings.
pub proof fn lemma_connection_strings_stay_protected(components: Seq<Seq<char>>, at: int)
    requires
        0 <= at < components.len(),
        settings_error(components) is None,
    ensures
        parted(components[at], '=') matches Some((key, value)) ==> {
            &&& same_ignoring_case(trimmed(key), "TrustServerCertificate"@) ==> !is_affirmative(
                trimmed(value),
            )
            &&& !same_ignoring_case(trimmed(key), "TrustServerCertificateCA"@)
            &&& same_ignoring_case(trimmed(key), "IntegratedSecurity"@) ==> !is_affirmative(
                trimmed(value),
            )
            &&& !same_ignoring_case(trimmed(key), "Authentication"@)
        },
    decreases components.len(),
{
    if at > 0 {
        let rest = components.subrange(1, components.len() as int);
        assert(rest[at - 1] == components[at]);
        lemma_connection_strings_stay_protected(rest, at - 1);
    }
}

/// A credential is used only for the kind that the profile says, certificates are always verified,
/// and a server's name is that of the endpoint.
pub proof fn lemma_profiles_are_kept(
    profile: ConnectionProfile,
    kind: AuthKind,
    host: Seq<char>,
    name: Seq<char>,
)
    ensures
        auth_error(profile, kind) is None <==> profile.auth_kind == kind,
        tls_error(profile) is None <==> (profile.tls.enabled
            ==> profile.tls.verify_server_certificate),
        server_name_error(profile, host, name) is None && profile.tls.server_name is Some
            ==> profile.endpoint.host is Some && same_ignoring_case(
            profile.tls.server_name->0@,
            profile.endpoint.host->0@,
        ),
{
}

/// Each flavor serves its own product alone.
pub proof fn lemma_flavors_serve_their_product(
    mysql: MySqlFlavor,
    pg: PostgresFlavor,
    profile: ConnectionProfile,
)
    ensures
        serves(mysql, profile) ==> match mysql {
            MySqlFlavor::MySql => profile.product == Product::MySql,
            MySqlFlavor::TiDb => profile.product == Product::TiDb,
            MySqlFlavor::OceanBaseMySql => profile.product == Product::OceanBase,
        },
        crate::sql::postgres::serves(pg, profile) ==> match pg {
            PostgresFlavor::PostgreSql => profile.product == Product::PostgreSql,
            PostgresFlavor::CockroachDb => profile.product == Product::CockroachDb,
            PostgresFlavor::YugabyteYsql => profile.product == Product::YugabyteDb,
        },
        crate::sql::oracle::profile_error(profile) is None ==> profile.product == Product::Oracle
            && profile.api_mode@ == "tns"@ && profile.endpoint.host is Some && (
        profile.endpoint.scheme@ == "oracles"@ || profile.endpoint.scheme@ == "tcps"@
            ==> profile.tls.enabled),
        crate::sql::sql_server::profile_error(profile) is None ==> profile.product
            == Product::SqlServer && profile.tls.ca_certificate_ref is None
            && profile.tls.client_certificate_ref is None,
{
}

/// A server is taken only for what its version says it is.
pub proof fn lemma_servers_are_what_they_say(
    mysql: MySqlFlavor,
    pg: PostgresFlavor,
    version: Seq<char>,
)
    ensures
        server_error(mysql, version) is None ==> {
            let text = lower(version);
            match mysql {
                MySqlFlavor::MySql => !occurs_in("tidb"@, text) && !occurs_in("oceanbase"@, text)
                    && !occurs_in("mariadb"@, text),
                MySqlFlavor::TiDb => occurs_in("tidb"@, text),
                MySqlFlavor::OceanBaseMySql => occurs_in("oceanbase"@, text),
            }
        },
        crate::sql::postgres::server_error(pg, version) is None ==> {
            let text = lower(version);
            match pg {
                PostgresFlavor::PostgreSql => !occurs_in("cockroachdb"@, text) && !occurs_in(
                    "yugabyte"@,
                    text,
                ) && !occurs_in("-yb-"@, text),
                PostgresFlavor::CockroachDb => occurs_in("cockroachdb"@, text),
                PostgresFlavor::YugabyteYsql => occurs_in("yugabyte"@, text) || occurs_in(
                    "-yb-"@,
                    text,
                ),
            }
        },
        server_error(mysql, version) matches Some(error) ==> error.code == Some(
            "product_mismatch"@,
        ),
{
    reveal_strlit("TiDB");
    reveal_strlit("OceanBase");
    reveal_strlit("MariaDB");
    reveal_strlit("CockroachDB");
    reveal_strlit("YugabyteDB");
    assert("TiDB"@.len() == 4 && "OceanBase"@.len() == 9 && "MariaDB"@.len() == 7
        && "CockroachDB"@.len() == 11 && "YugabyteDB"@.len() == 10);
}

/// What a server says of itself is shown as it is: its version, its database and its user.
pub proof fn lemma_servers_show_who_they_are(
    mysql: MySqlFlavor,
    pg: PostgresFlavor,
    row: Option<MySqlIdentity>,
    tds: Option<TdsIdentity>,
    cells: Option<(CatalogCell, CatalogCell)>,
    version: Seq<char>,
    database: Seq<char>,
    user: Seq<char>,
)
    ensures
        mysql_identity(mysql, row) matches Ok(info) ==> row is Some && server_error(
            mysql,
            row->0.version@,
        ) is None && info.product_version == Some(row->0.version@) && (
        row->0.database matches Some(name) ==> info.server_identity == Some(
            name@ + "/"@ + row->0.user@,
        )),
        postgres_identity(pg, version, database, user) matches Ok(info)
            ==> crate::sql::postgres::server_error(pg, version) is None && info.product_version
            == Some(version) && info.server_identity == Some(database + "/"@ + user),
        tds_identity(tds) matches Ok(info) ==> tds is Some && info.product_version
            == optional_text(tds->0.version) && (tds->0.database is Some && tds->0.user is Some
            ==> info.server_identity == Some(
            tds->0.database->0@ + "/"@ + tds->0.user->0@,
        )),
        oracle_identity(cells, version) matches Ok(info) ==> cells is Some && (info.product_version
            == if version.len() == 0 {
            None
        } else {
            Some(version)
        }) && info.server_identity == Some(
            cell_text((cells->0).0)->Ok_0 + "/"@ + cell_text((cells->0).1)->Ok_0,
        ),
{
}

/// A statement waits no longer than the caller has left, than the connection allows and than the
/// request asks for; each of the last two counts as one millisecond at least.
pub proof fn lemma_statements_end_in_time(
    remaining: u128,
    configured_ms: u64,
    requested_ms: Option<u64>,
)
    ensures
        timeout_result(None, configured_ms, requested_ms) matches Err(error) && error.category
            == ErrorCategory::Timeout,
        timeout_result(Some(remaining), configured_ms, requested_ms) matches Ok(nanos) && {
            &&& nanos <= remaining
            &&& nanos <= 1_000_000 || nanos <= configured_ms * 1_000_000
            &&& requested_ms matches Some(asked) ==> nanos <= 1_000_000 || nanos <= asked
                * 1_000_000
            &&& nanos == remaining || nanos == 1_000_000 || nanos == configured_ms * 1_000_000
                || (requested_ms matches Some(asked) && nanos == asked * 1_000_000) || nanos
                == u64::MAX * 1_000_000
        },
{
}

/// A read returns the first of its rows, in order and as they were read, and all of them where they
/// fit.
pub proof fn lemma_reads_return_their_rows(
    context: ConnectorContext,
    elapsed_ms: u64,
    rows: Seq<RecordModel>,
    sizes: Seq<u64>,
    row_limit: Option<usize>,
    base_offset: Option<u64>,
    more: bool,
)
    requires
        sizes.len() == rows.len(),
    ensures
        ({
            let outcome = read_outcome(
                context,
                elapsed_ms,
                rows,
                sizes,
                row_limit,
                base_offset,
                more,
            );
            let limit = match row_limit {
                Some(limit) => limit as int,
                None => context.max_rows as int,
            };
            let kept = outcome.records.len();
            &&& outcome.request_id == context.request_id@
            &&& kept <= rows.len()
            &&& kept <= limit
            &&& forall|i: int| 0 <= i < kept ==> #[trigger] outcome.records[i] == rows[i]
            &&& rows.len() <= limit && total(sizes) <= context.max_bytes ==> kept == rows.len()
            &&& outcome.truncated <==> more || kept < rows.len()
            &&& outcome.metrics.returned == kept as u64
            &&& outcome.metrics.affected == 0
            &&& outcome.metrics.elapsed_ms == elapsed_ms
            &&& outcome.outcome == WriteOutcome::NotApplicable
            &&& base_offset is None || !outcome.truncated ==> outcome.next_cursor is None
            &&& base_offset matches Some(offset) ==> (outcome.truncated && offset + kept <= u64::MAX
                ==> outcome.next_cursor == Some(offset_cursor((offset + kept) as u64)))
        }),
{
    let limit = match row_limit {
        Some(limit) => limit as nat,
        None => context.max_rows as nat,
    };
    let shown = sizes.subrange(
        0,
        if limit <= sizes.len() {
            limit as int
        } else {
            sizes.len() as int
        },
    );
    lemma_fitting(shown, context.max_bytes);
    if rows.len() <= limit && total(sizes) <= context.max_bytes {
        assert(shown =~= sizes);
        let kept = kept_count(sizes, limit, context.max_bytes);
        if kept < sizes.len() {
            crate::budget::lemma_total_grows(sizes, kept as int + 1);
        }
    }
}

/// A write reports what it affected, and success; one in a transaction is kept exactly where it stays
/// within its limit.
pub proof fn lemma_writes_report_what_they_affect(
    product: SqlProduct,
    context: ConnectorContext,
    elapsed_ms: u64,
    affected: u64,
    limit: u64,
    failed: Option<ErrorModel>,
)
    ensures
        write_outcome(context, elapsed_ms, affected).metrics.affected == affected,
        write_outcome(context, elapsed_ms, affected).metrics.elapsed_ms == elapsed_ms,
        write_outcome(context, elapsed_ms, affected).outcome == WriteOutcome::Succeeded,
        write_outcome(context, elapsed_ms, affected).request_id == context.request_id@,
        write_outcome(context, elapsed_ms, affected).records.len() == 0,
        step_after(affected, limit) is Commit <==> affected <= limit,
        transaction_result(product, context, elapsed_ms, affected, limit, failed) is Ok
            <==> failed is None && affected <= limit,
        failed matches Some(error) ==> transaction_result(
            product,
            context,
            elapsed_ms,
            affected,
            limit,
            failed,
        ) == Err::<crate::model::ResultModel, ErrorModel>(error),
        transaction_result(product, context, elapsed_ms, affected, limit, failed) matches Ok(result)
            ==> result == write_outcome(context, elapsed_ms, affected),
{
}

/// Rows are fetched until the limit is reached or none is left, a thousand at a time at most.
pub proof fn lemma_fetches_end_at_the_limit(have: nat, more: bool, limit: nat)
    ensures
        fetch_size(have, more, limit) is None <==> !more || have >= limit,
        fetch_size(have, more, limit) matches Some(count) ==> 0 < count <= 1000 && have + count
            <= limit && (count == 1000 || have + count == limit),
{
}

/// Rows of PostgreSQL are read as documents of the statement's own rows.
pub proof fn lemma_rows_are_read_as_documents(sql: Seq<char>)
    ensures
        json_rows_sql(sql) == "SELECT to_jsonb(\"__mcp_row\") FROM ("@ + sql
            + ") AS \"__mcp_row\""@,
{
}

/// Every value of a statement of SQL Server is bound in its place.
pub proof fn lemma_tds_parameters_are_bound(list: Seq<ValueModel>)
    ensures
        tds_parameters(list) matches Ok(bound) ==> bound.len() == list.len() && forall|i: int|
            0 <= i < list.len() ==> tds_parameter(list[i]) == Ok::<
                crate::sql::sql_server_catalog::TdsParameterModel,
                ErrorModel,
            >(#[trigger] bound[i]),
    decreases list.len(),
{
    if list.len() > 0 {
        let before = list.drop_last();
        lemma_tds_parameters_are_bound(before);
        if let Ok(bound) = tds_parameters(list) {
            let shorter = tds_parameters(before)->Ok_0;
            assert forall|i: int| 0 <= i < list.len() implies tds_parameter(list[i]) == Ok::<
                crate::sql::sql_server_catalog::TdsParameterModel,
                ErrorModel,
            >(#[trigger] bound[i]) by {
                if i < before.len() {
                    assert(bound[i] == shorter[i]);
                    assert(before[i] == list[i]);
                }
            }
        }
    }
}

/// The last place of a name.
pub open spec fn last_place(names: Seq<Seq<char>>, name: Seq<char>) -> Option<int>
    decreases names.len(),
{
    if names.len() == 0 {
        None
    } else if names.last() == name {
        Some(names.len() - 1)
    } else {
        last_place(names.drop_last(), name)
    }
}

/// A row of SQL Server is read by the names of its columns, the last one where a name stands twice.
pub proof fn lemma_tds_rows_are_read_by_name(
    names: Seq<Seq<char>>,
    fields: Seq<crate::sql::sql_server_catalog::TdsField>,
    name: Seq<char>,
)
    ensures
        tds_row(names, fields) matches Ok(record) ==> match last_place(names, name) {
            Some(at) => 0 <= at < names.len() && names[at] == name && (
            crate::sql::sql_server_catalog::tds_field(fields[at]) matches Ok(value) && named(
                record,
                name,
            ) == Some(value)),
            None => named(record, name) is None,
        },
    decreases names.len(),
{
    if names.len() > 0 {
        let before = names.drop_last();
        lemma_tds_rows_are_read_by_name(before, fields, name);
        if let Ok(record) = tds_row(names, fields) {
            let last = names.len() - 1;
            let shorter = tds_row(before, fields)->Ok_0;
            let value = crate::sql::sql_server_catalog::tds_field(fields[last])->Ok_0;
            lemma_entries_are_found(shorter, names[last], value, name);
        }
    }
}

/// Every flavor has a name, a mode and an identifier of its own, and shows them.
pub proof fn lemma_products_are_named(
    mysql: MySqlFlavor,
    pg: PostgresFlavor,
    row: Option<MySqlIdentity>,
    tds: Option<TdsIdentity>,
    cells: Option<(CatalogCell, CatalogCell)>,
    version: Seq<char>,
    database: Seq<char>,
    user: Seq<char>,
)
    ensures
        mysql_identity(mysql, row) matches Ok(info) ==> match mysql {
            MySqlFlavor::MySql => info.product_name == "MySQL"@ && info.api_mode == "mysql"@,
            MySqlFlavor::TiDb => info.product_name == "TiDB"@ && info.api_mode == "mysql"@,
            MySqlFlavor::OceanBaseMySql => info.product_name == "OceanBase"@ && info.api_mode
                == "oceanbase_mysql"@,
        },
        postgres_identity(pg, version, database, user) matches Ok(info) ==> match pg {
            PostgresFlavor::PostgreSql => info.product_name == "PostgreSQL"@ && info.api_mode
                == "postgresql"@,
            PostgresFlavor::CockroachDb => info.product_name == "CockroachDB"@ && info.api_mode
                == "postgresql"@,
            PostgresFlavor::YugabyteYsql => info.product_name == "YugabyteDB"@ && info.api_mode
                == "ysql"@,
        },
        tds_identity(tds) matches Ok(info) ==> info.product_name == "Microsoft SQL Server"@
            && info.api_mode == "tds"@,
        oracle_identity(cells, version) matches Ok(info) ==> info.product_name
            == "Oracle Database"@ && info.api_mode == "tns"@,
        crate::sql::mysql::connector_id(mysql) == match mysql {
            MySqlFlavor::MySql => "mysql-protocol"@,
            MySqlFlavor::TiDb => "tidb-mysql"@,
            MySqlFlavor::OceanBaseMySql => "oceanbase-mysql"@,
        },
        crate::sql::postgres::connector_id(pg) == match pg {
            PostgresFlavor::PostgreSql => "postgresql-pgwire"@,
            PostgresFlavor::CockroachDb => "cockroachdb-pgwire"@,
            PostgresFlavor::YugabyteYsql => "yugabytedb-ysql"@,
        },
{
}

/// The roots that a client of PostgreSQL trusts are those of its credential, all of them, and none
/// where it refers to no certificate; one that holds nothing is refused.
pub proof fn lemma_roots_are_those_of_the_credential(text: Seq<char>)
    ensures
        crate::sql::postgres_values::roots_result(None) matches Ok(none) && none.len() == 0,
        crate::sql::postgres_values::roots_result(Some(text)) matches Ok(list) ==> list.len() > 0
            && crate::sql::postgres_values::pem_certificates(text) == Ok::<
            Seq<Seq<u8>>,
            Seq<char>,
        >(list),
{
}

/// A client of PostgreSQL shows the certificates and the private key of its credential, and neither
/// may be missing.
pub proof fn lemma_identities_are_those_of_the_credential(certificate: Seq<char>, key: Seq<char>)
    ensures
        crate::sql::postgres_values::identity_result(certificate, key) matches Ok(shown)
            ==> shown.0.len() > 0 && crate::sql::postgres_values::pem_certificates(certificate)
            == Ok::<Seq<Seq<u8>>, Seq<char>>(shown.0) && (
        crate::sql::postgres_values::pem_private_key(key) matches Ok(Some(found)) && found
            == shown.1),
{
}

/// The code of an Oracle error is shown with five digits behind its prefix.
pub proof fn lemma_oracle_codes_are_shown(cause: crate::sql::oracle::OracleFailure, write: bool)
    ensures
        cause.kind is Server ==> crate::sql::oracle::oracle_error(cause, write).code == Some(
            "ORA-"@ + crate::text::padded(cause.code as nat, 5),
        ),
        cause.kind is InvalidCredentials ==> crate::sql::oracle::oracle_error(cause, write).code
            == Some("ORA-"@ + crate::text::padded(1017, 5)),
        crate::sql::oracle::oracle_error(cause, write).message == "Oracle request failed: "@
            + cause.message@,
{
}

} // verus!
