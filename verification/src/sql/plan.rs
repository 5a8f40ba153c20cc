//! What a relational connector does for an operation.
use crate::budget::larger;
use crate::model::{
    covers, failure, framed, invalid, invalid_request, unsupported, unsupported_request, Capability,
    ConnectionProfile, ConnectorContext, ConnectorError, DataOperation, ErrorCategory, ErrorModel,
    NativeRequest,
};
use crate::sql::identifier::SqlFamily;
use crate::sql::limits::{
    effective_row_limit, effective_write_limit, row_limit_result, write_limit_result,
};
use crate::sql::mysql::relational_capability_list;
use crate::sql::native::{native_result, parse_native};
use crate::sql::postgres::{structured_write_family, PostgresFlavor};
use crate::sql::statement::{
    build_delete, build_insert, build_read, build_update, delete_result, insert_result, read_result,
    update_result, BuiltQuery, QueryModel,
};
use crate::text::{decimal, decimal_text, equal_ignoring_case, same_ignoring_case};
use crate::value::{copy_values, values};
use vstd::prelude::*;
use vstd::string::StringExecFns;

verus! {

/// The relational products.
#[derive(Debug, Clone, Copy, PartialEq, Eq, Structural)]
pub enum SqlProduct {
    PostgreSql,
    CockroachDb,
    YugabyteYsql,
    MySql,
    TiDb,
    OceanBaseMySql,
    Oracle,
    SqlServer,
}

/// The timeout that an operation asks for: only a read has one.
pub open spec fn operation_timeout(operation: DataOperation) -> Option<u64> {
    match operation {
        DataOperation::Read(request) => request.options.timeout_ms,
        _ => None,
    }
}

/// The timeout that an operation asks for.
pub fn requested_timeout(operation: &DataOperation) -> (result: Option<u64>)
    ensures
        result == operation_timeout(*operation),
{
    match operation {
        DataOperation::Read(request) => request.options.timeout_ms,
        _ => None,
    }
}

/// Whether an operation changes rows where a relational connector carries it out.
pub open spec fn changes_rows(operation: DataOperation) -> bool {
    operation is Insert || operation is Update || operation is Delete || operation is NativeExecute
}

/// Whether an operation changes rows where a relational connector carries it out.
pub fn operation_writes(operation: &DataOperation) -> (result: bool)
    ensures
        result == changes_rows(*operation),
{
    match operation {
        DataOperation::Insert(_) => true,
        DataOperation::Update(_) => true,
        DataOperation::Delete(_) => true,
        DataOperation::NativeExecute(_) => true,
        _ => false,
    }
}

/// What is done for an operation.
#[derive(Debug)]
pub enum SqlPlan {
    /// A query.
    Read(BuiltQuery),
    /// A query in a transaction that only reads, where the driver has one.
    NativeRead(BuiltQuery),
    /// A statement that bounds its own effect.
    Write(BuiltQuery),
    /// A statement in a transaction that is rolled back where it affects more than `limit` rows.
    BoundedWrite { query: BuiltQuery, limit: u64 },
}

/// What a [`SqlPlan`] is.
pub enum PlanModel {
    Read(QueryModel),
    NativeRead(QueryModel),
    Write(QueryModel),
    BoundedWrite { query: QueryModel, limit: int },
}

impl View for SqlPlan {
    type V = PlanModel;

    open spec fn view(&self) -> PlanModel {
        match *self {
            SqlPlan::Read(query) => PlanModel::Read(query@),
            SqlPlan::NativeRead(query) => PlanModel::NativeRead(query@),
            SqlPlan::Write(query) => PlanModel::Write(query@),
            SqlPlan::BoundedWrite { query, limit } => PlanModel::BoundedWrite {
                query: query@,
                limit: limit as int,
            },
        }
    }
}

/// Whether a plan is what is expected of it.
pub open spec fn is_plan_result(
    result: Result<SqlPlan, ConnectorError>,
    expected: Result<PlanModel, ErrorModel>,
) -> bool {
    match (result, expected) {
        (Ok(plan), Ok(wanted)) => plan@ == wanted,
        (Err(error), Err(wanted)) => error@ == wanted,
        _ => false,
    }
}

/// The dialect in which a product reads and inserts.
pub open spec fn product_family(product: SqlProduct) -> SqlFamily {
    match product {
        SqlProduct::PostgreSql => SqlFamily::PostgreSql,
        SqlProduct::CockroachDb => SqlFamily::PostgreSql,
        SqlProduct::YugabyteYsql => SqlFamily::PostgreSql,
        SqlProduct::Oracle => SqlFamily::Oracle,
        SqlProduct::SqlServer => SqlFamily::SqlServer,
        _ => SqlFamily::MySql,
    }
}

/// The dialect in which a product updates and deletes.
pub open spec fn write_family(product: SqlProduct) -> SqlFamily {
    match product {
        SqlProduct::CockroachDb => SqlFamily::PostgreSqlCompatible,
        SqlProduct::YugabyteYsql => SqlFamily::PostgreSqlCompatible,
        _ => product_family(product),
    }
}

/// Whether a product's updates and deletes are bounded by a transaction, since the statement
/// itself is not.
pub open spec fn bounds_by_transaction(product: SqlProduct) -> bool {
    product == SqlProduct::CockroachDb || product == SqlProduct::YugabyteYsql || product
        == SqlProduct::Oracle
}

/// Whether an update's limit is checked before all else.
pub open spec fn checks_limit_first(product: SqlProduct) -> bool {
    product_family(product) == SqlFamily::PostgreSql || product_family(product)
        == SqlFamily::Oracle
}

/// Whether a language is one that a product's native statements may be in.
pub open spec fn speaks(product: SqlProduct, language: Seq<char>) -> bool {
    ||| same_ignoring_case(language, "sql"@)
    ||| match product_family(product) {
        SqlFamily::MySql => same_ignoring_case(language, "mysql"@),
        SqlFamily::Oracle => same_ignoring_case(language, "oracle"@),
        SqlFamily::SqlServer => same_ignoring_case(language, "tsql"@) || same_ignoring_case(
            language,
            "t-sql"@,
        ),
        _ => same_ignoring_case(language, "postgresql"@) || same_ignoring_case(
            language,
            "pgsql"@,
        ),
    }
}

/// The message for a native statement in another language.
pub open spec fn language_message(product: SqlProduct) -> Seq<char> {
    match product_family(product) {
        SqlFamily::MySql => "MySQL native requests require language `sql` or `mysql`"@,
        SqlFamily::Oracle => "Oracle native requests require language `sql` or `oracle`"@,
        SqlFamily::SqlServer =>
            "SQL Server native requests require language `sql`, `tsql`, or `t-sql`"@,
        _ => "PostgreSQL native requests require language `sql`, `postgresql`, or `pgsql`"@,
    }
}

/// The message for a native statement with named parameters.
pub open spec fn parameters_message(product: SqlProduct) -> Seq<char> {
    match product_family(product) {
        SqlFamily::MySql =>
            "MySQL native SQL accepts positional_parameters with ? placeholders; named parameters are not rewritten"@,
        SqlFamily::Oracle =>
            "Oracle native SQL accepts positional_parameters with :1 placeholders; named parameters are not rewritten"@,
        SqlFamily::SqlServer =>
            "SQL Server native SQL accepts positional_parameters with @P1 placeholders; named parameters are not rewritten"@,
        _ =>
            "PostgreSQL native SQL accepts positional_parameters with $1 placeholders; named parameters are not rewritten"@,
    }
}

/// The error of a native request in another language or with named parameters.
pub open spec fn native_request_error(product: SqlProduct, request: NativeRequest) -> Option<
    ErrorModel,
> {
    if !speaks(product, request.language@) {
        Some(unsupported_request(language_message(product)))
    } else if request.parameters@.len() > 0 {
        Some(invalid_request(parameters_message(product)))
    } else {
        None
    }
}

/// A native query that returns at most `fetch` rows, as far as the dialect can say so.
pub open spec fn bounded_query(product: SqlProduct, statement: Seq<char>, fetch: nat) -> Seq<char> {
    match product_family(product) {
        SqlFamily::MySql => "SELECT * FROM ("@ + statement + ") AS `__mcp_native` LIMIT "@
            + decimal(fetch),
        SqlFamily::Oracle => "SELECT * FROM ("@ + statement
            + ") \"__mcp_native\" FETCH FIRST "@ + decimal(fetch) + " ROWS ONLY"@,
        SqlFamily::SqlServer => statement,
        _ => "SELECT * FROM ("@ + statement + ") AS \"__mcp_native\" LIMIT "@ + decimal(fetch),
    }
}

/// What a native query does.
pub open spec fn native_read_plan(
    product: SqlProduct,
    context: ConnectorContext,
    profile: ConnectionProfile,
    request: NativeRequest,
) -> Result<PlanModel, ErrorModel> {
    if !profile.policy.allow_native_read {
        Err(
            failure(
                ErrorCategory::PermissionDenied,
                "native reads are disabled by connection policy"@,
            ),
        )
    } else {
        match native_request_error(product, request) {
            Some(error) => Err(error),
            None => match native_result(product_family(product), request.statement@, false) {
                Err(error) => Err(error),
                Ok(statement) => match row_limit_result(
                    context,
                    profile,
                    larger(context.max_rows as int, 1) as u32,
                ) {
                    Err(error) => Err(error),
                    Ok(limit) => Ok(
                        PlanModel::NativeRead(
                            QueryModel {
                                sql: bounded_query(product, statement, (limit + 1) as nat),
                                parameters: values(request.positional_parameters@),
                                row_limit: Some(limit as usize),
                                base_offset: None,
                            },
                        ),
                    ),
                },
            },
        }
    }
}

/// What a native write does.
pub open spec fn native_write_plan(
    product: SqlProduct,
    profile: ConnectionProfile,
    request: NativeRequest,
) -> Result<PlanModel, ErrorModel> {
    if !profile.policy.allow_native_write {
        Err(
            failure(
                ErrorCategory::PermissionDenied,
                "native writes are disabled by connection policy"@,
            ),
        )
    } else {
        match native_request_error(product, request) {
            Some(error) => Err(error),
            None => match native_result(product_family(product), request.statement@, true) {
                Err(error) => Err(error),
                Ok(statement) => match request.max_affected {
                    None => Err(invalid_request("native execute requires max_affected"@)),
                    Some(requested) => match write_limit_result(profile, requested) {
                        Err(error) => Err(error),
                        Ok(limit) => Ok(
                            PlanModel::BoundedWrite {
                                query: QueryModel {
                                    sql: statement,
                                    parameters: values(request.positional_parameters@),
                                    row_limit: None,
                                    base_offset: None,
                                },
                                limit,
                            },
                        ),
                    },
                },
            },
        }
    }
}

/// A write by a statement that bounds itself, or by a transaction.
pub open spec fn write_plan(
    query: Result<QueryModel, ErrorModel>,
    limit: int,
    by_transaction: bool,
) -> Result<PlanModel, ErrorModel> {
    match query {
        Err(error) => Err(error),
        Ok(query) => if by_transaction {
            Ok(PlanModel::BoundedWrite { query, limit })
        } else {
            Ok(PlanModel::Write(query))
        },
    }
}

/// The message for an operation that a product's connector does not offer.
pub open spec fn unoffered_message(product: SqlProduct) -> Seq<char> {
    match product {
        SqlProduct::PostgreSql =>
            "operation is not supported by the PostgreSQL SQL connector"@,
        SqlProduct::CockroachDb =>
            "operation is not supported by the CockroachDB SQL connector"@,
        SqlProduct::YugabyteYsql =>
            "operation is not supported by the YugabyteDB SQL connector"@,
        SqlProduct::MySql => "operation is not supported by the MySQL SQL connector"@,
        SqlProduct::TiDb => "operation is not supported by the TiDB SQL connector"@,
        SqlProduct::OceanBaseMySql =>
            "operation is not supported by the OceanBase SQL connector"@,
        SqlProduct::Oracle => "operation is not supported by the Oracle connector"@,
        SqlProduct::SqlServer => "operation is not supported by the SQL Server connector"@,
    }
}

/// What an operation does.
pub open spec fn plan_result(
    product: SqlProduct,
    context: ConnectorContext,
    profile: ConnectionProfile,
    operation: DataOperation,
) -> Result<PlanModel, ErrorModel> {
    match operation {
        DataOperation::Read(request) => match read_result(
            product_family(product),
            context,
            profile,
            request,
        ) {
            Err(error) => Err(error),
            Ok(query) => Ok(PlanModel::Read(query)),
        },
        DataOperation::Insert(request) => write_plan(
            insert_result(product_family(product), profile, request),
            profile.policy.max_affected as int,
            product == SqlProduct::Oracle,
        ),
        DataOperation::Update(request) => if checks_limit_first(product) && write_limit_result(
            profile,
            request.max_affected,
        ) is Err {
            Err(write_limit_result(profile, request.max_affected)->Err_0)
        } else {
            write_plan(
                update_result(write_family(product), profile, request),
                write_limit_result(profile, request.max_affected)->Ok_0,
                bounds_by_transaction(product),
            )
        },
        DataOperation::Delete(request) => write_plan(
            delete_result(write_family(product), profile, request),
            write_limit_result(profile, request.max_affected)->Ok_0,
            bounds_by_transaction(product),
        ),
        DataOperation::NativeQuery(request) => native_read_plan(product, context, profile, request),
        DataOperation::NativeExecute(request) => native_write_plan(product, profile, request),
        _ => Err(unsupported_request(unoffered_message(product))),
    }
}

/// The dialect in which a product reads and inserts.
fn family_of(product: SqlProduct) -> (result: SqlFamily)
    ensures
        result == product_family(product),
{
    match product {
        SqlProduct::PostgreSql => SqlFamily::PostgreSql,
        SqlProduct::CockroachDb => SqlFamily::PostgreSql,
        SqlProduct::YugabyteYsql => SqlFamily::PostgreSql,
        SqlProduct::Oracle => SqlFamily::Oracle,
        SqlProduct::SqlServer => SqlFamily::SqlServer,
        _ => SqlFamily::MySql,
    }
}

/// The dialect in which a product updates and deletes.
fn write_family_of(product: SqlProduct) -> (result: SqlFamily)
    ensures
        result == write_family(product),
{
    match product {
        SqlProduct::PostgreSql => structured_write_family(PostgresFlavor::PostgreSql),
        SqlProduct::CockroachDb => structured_write_family(PostgresFlavor::CockroachDb),
        SqlProduct::YugabyteYsql => structured_write_family(PostgresFlavor::YugabyteYsql),
        _ => family_of(product),
    }
}

/// Refuses native statements in another language.
pub fn validate_native_language(product: SqlProduct, language: &str) -> (result: Result<
    (),
    ConnectorError,
>)
    ensures
        crate::model::error_of(result) == (if speaks(product, language@) {
            None
        } else {
            Some(unsupported_request(language_message(product)))
        }),
{
    if equal_ignoring_case(language, "sql") {
        return Ok(());
    }
    match family_of(product) {
        SqlFamily::MySql => {
            if equal_ignoring_case(language, "mysql") {
                Ok(())
            } else {
                Err(unsupported("MySQL native requests require language `sql` or `mysql`"))
            }
        },
        SqlFamily::Oracle => {
            if equal_ignoring_case(language, "oracle") {
                Ok(())
            } else {
                Err(unsupported("Oracle native requests require language `sql` or `oracle`"))
            }
        },
        SqlFamily::SqlServer => {
            if equal_ignoring_case(language, "tsql") || equal_ignoring_case(language, "t-sql") {
                Ok(())
            } else {
                Err(
                    unsupported(
                        "SQL Server native requests require language `sql`, `tsql`, or `t-sql`",
                    ),
                )
            }
        },
        _ => {
            if equal_ignoring_case(language, "postgresql") || equal_ignoring_case(
                language,
                "pgsql",
            ) {
                Ok(())
            } else {
                Err(
                    unsupported(
                        "PostgreSQL native requests require language `sql`, `postgresql`, or `pgsql`",
                    ),
                )
            }
        },
    }
}

/// Refuses native requests in another language or with named parameters.
pub fn validate_native_request(product: SqlProduct, request: &NativeRequest) -> (result: Result<
    (),
    ConnectorError,
>)
    ensures
        crate::model::error_of(result) == native_request_error(product, *request),
{
    match validate_native_language(product, request.language.as_str()) {
        Err(error) => {
            return Err(error);
        },
        Ok(()) => {},
    }
    if request.parameters.len() > 0 {
        return Err(
            invalid(
                match family_of(product) {
                    SqlFamily::MySql =>
                        "MySQL native SQL accepts positional_parameters with ? placeholders; named parameters are not rewritten",
                    SqlFamily::Oracle =>
                        "Oracle native SQL accepts positional_parameters with :1 placeholders; named parameters are not rewritten",
                    SqlFamily::SqlServer =>
                        "SQL Server native SQL accepts positional_parameters with @P1 placeholders; named parameters are not rewritten",
                    _ =>
                        "PostgreSQL native SQL accepts positional_parameters with $1 placeholders; named parameters are not rewritten",
                },
            ),
        );
    }
    Ok(())
}

/// Writes a native query that returns at most `fetch` rows.
fn compile_bounded_query(product: SqlProduct, statement: &str, fetch: u64) -> (result: String)
    ensures
        result@ == bounded_query(product, statement@, fetch as nat),
{
    let fetch = decimal_text(fetch);
    match family_of(product) {
        SqlFamily::SqlServer => statement.to_owned(),
        SqlFamily::MySql => {
            let mut sql = framed("SELECT * FROM (", statement, ") AS `__mcp_native` LIMIT ");
            sql.append(fetch.as_str());
            sql
        },
        SqlFamily::Oracle => {
            let mut sql = framed(
                "SELECT * FROM (",
                statement,
                ") \"__mcp_native\" FETCH FIRST ",
            );
            sql.append(fetch.as_str());
            sql.append(" ROWS ONLY");
            sql
        },
        _ => {
            let mut sql = framed("SELECT * FROM (", statement, ") AS \"__mcp_native\" LIMIT ");
            sql.append(fetch.as_str());
            sql
        },
    }
}

/// Plans a native query.
fn plan_native_query(
    product: SqlProduct,
    context: &ConnectorContext,
    profile: &ConnectionProfile,
    request: &NativeRequest,
) -> (result: Result<SqlPlan, ConnectorError>)
    ensures
        is_plan_result(result, native_read_plan(product, *context, *profile, *request)),
{
    if !profile.policy.allow_native_read {
        return Err(
            ConnectorError::new(
                ErrorCategory::PermissionDenied,
                "native reads are disabled by connection policy",
            ),
        );
    }
    match validate_native_request(product, request) {
        Err(error) => {
            return Err(error);
        },
        Ok(()) => {},
    }
    let statement = match parse_native(family_of(product), request.statement.as_str(), false) {
        Err(error) => {
            return Err(error);
        },
        Ok(statement) => statement,
    };
    let requested: u32 = if context.max_rows >= 1 {
        context.max_rows
    } else {
        1
    };
    match effective_row_limit(context, profile, requested) {
        Err(error) => Err(error),
        Ok(limit) => Ok(
            SqlPlan::NativeRead(
                BuiltQuery {
                    sql: compile_bounded_query(product, statement.as_str(), limit as u64 + 1),
                    parameters: copy_values(&request.positional_parameters),
                    row_limit: Some(limit as usize),
                    base_offset: None,
                },
            ),
        ),
    }
}

/// Plans a native write.
fn plan_native_write(
    product: SqlProduct,
    profile: &ConnectionProfile,
    request: &NativeRequest,
) -> (result: Result<SqlPlan, ConnectorError>)
    ensures
        is_plan_result(result, native_write_plan(product, *profile, *request)),
{
    if !profile.policy.allow_native_write {
        return Err(
            ConnectorError::new(
                ErrorCategory::PermissionDenied,
                "native writes are disabled by connection policy",
            ),
        );
    }
    match validate_native_request(product, request) {
        Err(error) => {
            return Err(error);
        },
        Ok(()) => {},
    }
    let statement = match parse_native(family_of(product), request.statement.as_str(), true) {
        Err(error) => {
            return Err(error);
        },
        Ok(statement) => statement,
    };
    let requested: u64 = match request.max_affected {
        None => {
            return Err(invalid("native execute requires max_affected"));
        },
        Some(requested) => requested,
    };
    match effective_write_limit(profile, requested) {
        Err(error) => Err(error),
        Ok(limit) => Ok(
            SqlPlan::BoundedWrite {
                query: BuiltQuery {
                    sql: statement,
                    parameters: copy_values(&request.positional_parameters),
                    row_limit: None,
                    base_offset: None,
                },
                limit,
            },
        ),
    }
}

/// Plans an operation.
pub fn plan_operation(
    product: SqlProduct,
    context: &ConnectorContext,
    profile: &ConnectionProfile,
    operation: &DataOperation,
) -> (result: Result<SqlPlan, ConnectorError>)
    ensures
        is_plan_result(result, plan_result(product, *context, *profile, *operation)),
{
    let by_transaction = match product {
        SqlProduct::CockroachDb => true,
        SqlProduct::YugabyteYsql => true,
        SqlProduct::Oracle => true,
        _ => false,
    };
    match operation {
        DataOperation::Read(request) => match build_read(
            family_of(product),
            context,
            profile,
            request,
        ) {
            Err(error) => Err(error),
            Ok(query) => Ok(SqlPlan::Read(query)),
        },
        DataOperation::Insert(request) => match build_insert(
            family_of(product),
            profile,
            request,
        ) {
            Err(error) => Err(error),
            Ok(query) => if product == SqlProduct::Oracle {
                Ok(SqlPlan::BoundedWrite { query, limit: profile.policy.max_affected })
            } else {
                Ok(SqlPlan::Write(query))
            },
        },
        DataOperation::Update(request) => {
            let limit = effective_write_limit(profile, request.max_affected);
            let limit_first = match family_of(product) {
                SqlFamily::PostgreSql => true,
                SqlFamily::Oracle => true,
                _ => false,
            };
            if limit_first {
                match effective_write_limit(profile, request.max_affected) {
                    Err(error) => {
                        return Err(error);
                    },
                    Ok(_) => {},
                }
            }
            match build_update(write_family_of(product), profile, request) {
                Err(error) => Err(error),
                Ok(query) => if by_transaction {
                    match limit {
                        Err(error) => Err(error),
                        Ok(limit) => Ok(SqlPlan::BoundedWrite { query, limit }),
                    }
                } else {
                    Ok(SqlPlan::Write(query))
                },
            }
        },
        DataOperation::Delete(request) => {
            let limit = effective_write_limit(profile, request.max_affected);
            match build_delete(write_family_of(product), profile, request) {
                Err(error) => Err(error),
                Ok(query) => if by_transaction {
                    match limit {
                        Err(error) => Err(error),
                        Ok(limit) => Ok(SqlPlan::BoundedWrite { query, limit }),
                    }
                } else {
                    Ok(SqlPlan::Write(query))
                },
            }
        },
        DataOperation::NativeQuery(request) => plan_native_query(
            product,
            context,
            profile,
            request,
        ),
        DataOperation::NativeExecute(request) => plan_native_write(product, profile, request),
        _ => Err(
            unsupported(
                match product {
                    SqlProduct::PostgreSql =>
                        "operation is not supported by the PostgreSQL SQL connector",
                    SqlProduct::CockroachDb =>
                        "operation is not supported by the CockroachDB SQL connector",
                    SqlProduct::YugabyteYsql =>
                        "operation is not supported by the YugabyteDB SQL connector",
                    SqlProduct::MySql => "operation is not supported by the MySQL SQL connector",
                    SqlProduct::TiDb => "operation is not supported by the TiDB SQL connector",
                    SqlProduct::OceanBaseMySql =>
                        "operation is not supported by the OceanBase SQL connector",
                    SqlProduct::Oracle => "operation is not supported by the Oracle connector",
                    SqlProduct::SqlServer =>
                        "operation is not supported by the SQL Server connector",
                },
            ),
        ),
    }
}

/// The error of a write that affected more rows than it may.
pub open spec fn excess_error(product: SqlProduct, affected: u64, limit: u64) -> Option<
    ErrorModel,
> {
    if affected > limit {
        Some(
            failure(
                ErrorCategory::PermissionDenied,
                match product_family(product) {
                    SqlFamily::Oracle => "Oracle write exceeded max_affected and was rolled back"@,
                    SqlFamily::PostgreSql => "SQL write exceeded max_affected and was rolled back"@,
                    _ => "native SQL exceeded max_affected and was rolled back"@,
                },
            ),
        )
    } else {
        None
    }
}

/// Whether a write in a transaction is kept: it is rolled back with this error where it affected
/// more rows than it may.
pub fn check_affected(product: SqlProduct, affected: u64, limit: u64) -> (result: Result<
    (),
    ConnectorError,
>)
    ensures
        crate::model::error_of(result) == excess_error(product, affected, limit),
{
    if affected > limit {
        return Err(
            ConnectorError::new(
                ErrorCategory::PermissionDenied,
                match family_of(product) {
                    SqlFamily::Oracle => "Oracle write exceeded max_affected and was rolled back",
                    SqlFamily::PostgreSql => "SQL write exceeded max_affected and was rolled back",
                    _ => "native SQL exceeded max_affected and was rolled back",
                },
            ),
        );
    }
    Ok(())
}

/// A connection whose policy allows neither native reads nor native writes accepts no native
/// statement.
pub proof fn lemma_policy_guards_native_statements(
    product: SqlProduct,
    context: ConnectorContext,
    profile: ConnectionProfile,
    request: NativeRequest,
)
    ensures
        !profile.policy.allow_native_read ==> plan_result(
            product,
            context,
            profile,
            DataOperation::NativeQuery(request),
        ) is Err,
        !profile.policy.allow_native_write ==> plan_result(
            product,
            context,
            profile,
            DataOperation::NativeExecute(request),
        ) is Err,
{
}

/// What is planned for a read or a native query never writes, and every write that no statement
/// bounds is bounded by the policy of the connection.
pub proof fn lemma_plans_keep_to_their_kind(
    product: SqlProduct,
    context: ConnectorContext,
    profile: ConnectionProfile,
    operation: DataOperation,
)
    ensures
        match plan_result(product, context, profile, operation) {
            Ok(PlanModel::Read(_)) => operation is Read,
            Ok(PlanModel::NativeRead(_)) => operation is NativeQuery,
            Ok(PlanModel::Write(_)) => operation is Insert || operation is Update
                || operation is Delete,
            Ok(PlanModel::BoundedWrite { limit, .. }) => limit <= profile.policy.max_affected && !(
            operation is Read) && !(operation is NativeQuery),
            Err(_) => true,
        },
{
}

/// The connector takes up no operation that its manifest does not name.
pub proof fn lemma_only_named_operations_start(
    product: SqlProduct,
    context: ConnectorContext,
    profile: ConnectionProfile,
    operation: DataOperation,
)
    ensures
        plan_result(product, context, profile, operation) is Ok ==> covers(relational_capability_list(), operation),
{
    let list = relational_capability_list();
    assert(list[0] == Capability::TestConnection);
    assert(list[1] == Capability::Discover);
    assert(list[2] == Capability::Describe);
    assert(list[3] == Capability::Read);
    assert(list[4] == Capability::Insert);
    assert(list[5] == Capability::Update);
    assert(list[6] == Capability::Delete);
    assert(list[7] == Capability::NativeQuery);
    assert(list[8] == Capability::NativeExecute);
}

} // verus!
