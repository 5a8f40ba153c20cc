//! What each product is sent for an operation, and what becomes of its failures.
use crate::budget::{larger, smaller};
use crate::model::{
    ConnectionProfile, ConnectorContext, DataOperation, ErrorCategory, ErrorModel, ErrorPhase,
    NativeRequest,
};
use crate::sql::identifier::SqlFamily;
use crate::sql::mysql_values::{mysql_error, MySqlFailure};
use crate::sql::native::native_result;
use crate::sql::oracle::{oracle_error, unknown_write, OracleFailure};
use crate::sql::plan::{
    excess_error, native_read_plan, native_write_plan, operation_timeout, plan_result, PlanModel,
    SqlProduct,
};
use crate::sql::postgres::{pg_error, pool_error, PgFailure, PoolFailure};
use crate::sql::sql_server_catalog::{tds_error, TdsFailure};
use crate::sql::statement::{delete_result, insert_result, read_result, update_result, QueryModel};
use crate::text::{begins_with, decimal};
use crate::value::values;
use vstd::prelude::*;

verus! {

/// The dialect in which a product is read.
pub open spec fn dialect(product: SqlProduct) -> SqlFamily {
    match product {
        SqlProduct::PostgreSql => SqlFamily::PostgreSql,
        SqlProduct::CockroachDb => SqlFamily::PostgreSql,
        SqlProduct::YugabyteYsql => SqlFamily::PostgreSql,
        SqlProduct::MySql => SqlFamily::MySql,
        SqlProduct::TiDb => SqlFamily::MySql,
        SqlProduct::OceanBaseMySql => SqlFamily::MySql,
        SqlProduct::Oracle => SqlFamily::Oracle,
        SqlProduct::SqlServer => SqlFamily::SqlServer,
    }
}

/// The dialect in which the rows of a product are changed: those that speak PostgreSQL without its
/// row identities cannot bound a change by its text.
pub open spec fn changing_dialect(product: SqlProduct) -> SqlFamily {
    match product {
        SqlProduct::CockroachDb => SqlFamily::PostgreSqlCompatible,
        SqlProduct::YugabyteYsql => SqlFamily::PostgreSqlCompatible,
        _ => dialect(product),
    }
}

/// Whether the text of a change bounds the number of rows in a dialect.
pub open spec fn bounds_by_text(family: SqlFamily) -> bool {
    family is PostgreSql || family is MySql || family is SqlServer
}

/// Whether a plan sends a statement, within a bound on the number of rows where the text has none.
pub open spec fn sends(plan: PlanModel, query: QueryModel, bounded: bool, limit: int) -> bool {
    if bounded {
        plan == PlanModel::Write(query)
    } else {
        plan == PlanModel::BoundedWrite { query, limit }
    }
}

/// Each operation is planned as the statement of its own kind, in the dialect of the product. A
/// change or a deletion is bounded, by its text or by what is done with its outcome.
pub proof fn lemma_plans_send_their_statement(
    product: SqlProduct,
    context: ConnectorContext,
    profile: ConnectionProfile,
    operation: DataOperation,
)
    ensures
        plan_result(product, context, profile, operation) matches Ok(plan) ==> match operation {
            DataOperation::Read(request) => read_result(dialect(product), context, profile, request)
                matches Ok(query) && plan == PlanModel::Read(query),
            DataOperation::Insert(request) => insert_result(dialect(product), profile, request)
                matches Ok(query) && sends(
                plan,
                query,
                !(product is Oracle),
                profile.policy.max_affected as int,
            ),
            DataOperation::Update(request) => update_result(
                changing_dialect(product),
                profile,
                request,
            ) matches Ok(query) && sends(
                plan,
                query,
                bounds_by_text(changing_dialect(product)),
                smaller(request.max_affected as int, profile.policy.max_affected as int),
            ),
            DataOperation::Delete(request) => delete_result(
                changing_dialect(product),
                profile,
                request,
            ) matches Ok(query) && sends(
                plan,
                query,
                bounds_by_text(changing_dialect(product)),
                smaller(request.max_affected as int, profile.policy.max_affected as int),
            ),
            DataOperation::NativeQuery(request) => plan is NativeRead,
            DataOperation::NativeExecute(request) => plan is BoundedWrite,
            _ => false,
        },
        plan_result(product, context, profile, operation) is Err ==> match operation {
            DataOperation::Read(request) => read_result(
                dialect(product),
                context,
                profile,
                request,
            ) is Err,
            DataOperation::Insert(request) => insert_result(dialect(product), profile, request) is Err,
            DataOperation::Update(request) => update_result(
                changing_dialect(product),
                profile,
                request,
            ) is Err,
            DataOperation::Delete(request) => delete_result(
                changing_dialect(product),
                profile,
                request,
            ) is Err,
            _ => true,
        },
{
}

/// What stands around a native query, so that no more rows come back than are asked for.
pub open spec fn is_bounded_query(
    product: SqlProduct,
    sql: Seq<char>,
    statement: Seq<char>,
    rows: nat,
) -> bool {
    match dialect(product) {
        SqlFamily::MySql => sql == "SELECT * FROM ("@ + statement + ") AS `__mcp_native` LIMIT "@
            + decimal(rows),
        SqlFamily::Oracle => sql == "SELECT * FROM ("@ + statement
            + ") \"__mcp_native\" FETCH FIRST "@ + decimal(rows) + " ROWS ONLY"@,
        SqlFamily::SqlServer => sql == statement,
        _ => sql == "SELECT * FROM ("@ + statement + ") AS \"__mcp_native\" LIMIT "@ + decimal(
            rows,
        ),
    }
}

/// A native query is sent as it was accepted, with its own values, and asks for one row more than it
/// may return; a native change is sent as it was accepted, with its own values, and bounded by what
/// the request and the policy admit. Neither is sent where the policy forbids it.
pub proof fn lemma_native_statements_are_sent_as_they_are(
    product: SqlProduct,
    context: ConnectorContext,
    profile: ConnectionProfile,
    request: NativeRequest,
)
    ensures
        native_read_plan(product, context, profile, request) matches Ok(plan) ==> {
            let limit = smaller(
                larger(context.max_rows as int, 1),
                smaller(context.max_rows as int, profile.policy.max_rows as int),
            );
            &&& profile.policy.allow_native_read
            &&& request.parameters@.len() == 0
            &&& native_result(dialect(product), request.statement@, false) matches Ok(statement)
                && plan matches PlanModel::NativeRead(query) && {
                &&& is_bounded_query(product, query.sql, statement, (limit + 1) as nat)
                &&& query.parameters == values(request.positional_parameters@)
                &&& query.row_limit == Some(limit as usize)
                &&& query.base_offset is None
            }
        },
        native_write_plan(product, profile, request) matches Ok(plan) ==> {
            &&& profile.policy.allow_native_write
            &&& request.parameters@.len() == 0
            &&& native_result(dialect(product), request.statement@, true) matches Ok(statement)
                && plan matches PlanModel::BoundedWrite { query, limit } && {
                &&& query.sql == statement
                &&& query.parameters == values(request.positional_parameters@)
                &&& request.max_affected matches Some(asked) && 0 < asked && limit == smaller(
                    asked as int,
                    profile.policy.max_affected as int,
                )
            }
        },
{
}

/// A write that affected more rows than it may is refused, and no other one.
pub proof fn lemma_excess_is_refused(product: SqlProduct, affected: u64, limit: u64)
    ensures
        excess_error(product, affected, limit) is Some <==> affected > limit,
        excess_error(product, affected, limit) matches Some(error) ==> error.category
            == ErrorCategory::PermissionDenied && !error.retryable,
{
}

/// Whether an error says that nothing is known of a write, and does not invite a retry.
pub open spec fn is_open(error: ErrorModel) -> bool {
    error.category == ErrorCategory::UnknownOutcome && !error.retryable
}

/// A write whose connection is lost leaves its outcome open, whatever the product; a read that loses
/// it may be tried again.
pub proof fn lemma_lost_connections_leave_writes_open(
    mysql: MySqlFailure,
    pg: PgFailure,
    oracle: OracleFailure,
    tds: TdsFailure,
)
    ensures
        mysql matches MySqlFailure::Other { fatal } && fatal ==> is_open(mysql_error(mysql, true))
            && mysql_error(mysql, false).category == ErrorCategory::Unavailable && mysql_error(
            mysql,
            false,
        ).retryable,
        mysql is Tls ==> is_open(mysql_error(mysql, true)) && mysql_error(mysql, false).category
            == ErrorCategory::Unavailable && mysql_error(mysql, false).phase == ErrorPhase::Tls,
        pg.closed ==> is_open(pg_error(pg, true)) && pg_error(pg, false).category
            == ErrorCategory::Unavailable && pg_error(pg, false).retryable,
        !pg.closed && pg.code is None ==> is_open(pg_error(pg, true)),
        !pg.closed && pg.code is None && pg.network && !pg.tls ==> pg_error(pg, false).category
            == ErrorCategory::Unavailable && pg_error(pg, false).retryable,
        oracle.kind is ConnectionTimeout ==> is_open(oracle_error(oracle, true)) && oracle_error(
            oracle,
            false,
        ).category == ErrorCategory::Timeout,
        oracle.kind is Other && oracle.connection ==> is_open(oracle_error(oracle, true))
            && oracle_error(oracle, false).category == ErrorCategory::Unavailable && oracle_error(
            oracle,
            false,
        ).retryable,
        tds is Tls || tds is Transport ==> is_open(tds_error(tds, true)) && tds_error(
            tds,
            false,
        ).category == ErrorCategory::Unavailable && tds_error(tds, false).retryable,
{
}

/// What MySQL answers by its codes: who may not enter, what is not allowed, what is not there, what
/// is in the way, what takes too long, what cannot be had, and what is not valid. Only what may pass
/// is worth a retry.
pub proof fn lemma_mysql_codes_have_their_meaning(cause: MySqlFailure, write: bool)
    ensures
        cause matches MySqlFailure::Server { code, state } ==> {
            let error = mysql_error(cause, write);
            &&& error.code == Some(decimal(code as nat))
            &&& code == 1045 <==> error.category == ErrorCategory::Authentication
            &&& (code == 1044 || code == 1142 || code == 1143) <==> error.category
                == ErrorCategory::PermissionDenied
            &&& code == 1049 <==> error.category == ErrorCategory::NotFound
            &&& (code == 1062 || code == 1213) <==> error.category == ErrorCategory::Conflict
            &&& code == 1205 <==> error.category == ErrorCategory::Timeout
            &&& (code == 1040 || code == 1053) <==> error.category == ErrorCategory::Unavailable
            &&& (code == 1064 || code == 1146 || code == 1366) <==> error.category
                == ErrorCategory::InvalidRequest
            &&& error.retryable <==> code == 1040 || code == 1053 || code == 1205 || code == 1213
        },
{
}

/// What PostgreSQL answers by its states, by their classes and by two of them alone.
pub proof fn lemma_postgres_states_have_their_meaning(cause: PgFailure, write: bool)
    requires
        !cause.closed,
    ensures
        cause.code matches Some(code) ==> {
            let error = pg_error(cause, write);
            &&& error.code == Some(code@)
            &&& begins_with(code@, "28"@) ==> error.category == ErrorCategory::Authentication
            &&& code@ == "42501"@ && !begins_with(code@, "28"@) ==> error.category
                == ErrorCategory::PermissionDenied
            &&& code@ == "57014"@ && !begins_with(code@, "28"@) && !begins_with(code@, "23"@)
                && !begins_with(code@, "40"@) && code@ != "42501"@ ==> error.category
                == ErrorCategory::Cancelled
            &&& error.category == ErrorCategory::Conflict ==> begins_with(code@, "23"@)
                || begins_with(code@, "40"@)
            &&& error.category == ErrorCategory::UnknownOutcome ==> write && begins_with(
                code@,
                "08"@,
            )
            &&& error.category == ErrorCategory::Unavailable ==> !write && begins_with(code@, "08"@)
            &&& error.category == ErrorCategory::InvalidRequest ==> begins_with(code@, "42"@)
                || begins_with(code@, "22"@)
            &&& error.category == ErrorCategory::Protocol ==> !begins_with(code@, "42"@)
                && !begins_with(code@, "22"@) && !begins_with(code@, "08"@) && !begins_with(
                code@,
                "23"@,
            ) && !begins_with(code@, "40"@)
            &&& error.retryable <==> !write && begins_with(code@, "08"@)
        },
{
}

/// What Oracle answers by its codes. A code whose request may have reached the server leaves a write
/// open.
pub proof fn lemma_oracle_codes_have_their_meaning(cause: OracleFailure, write: bool)
    requires
        cause.kind is Server,
    ensures
        ({
            let error = oracle_error(cause, write);
            let code = cause.code;
            let lost = code == 12_541 || code == 12_545 || code == 31_113 || code == 31_114 || code
                == 31_135;
            &&& (code == 1 || code == 54 || code == 60) <==> error.category == ErrorCategory::Conflict
            &&& (code == 1_010 || code == 1_017 || code == 28_000) <==> error.category
                == ErrorCategory::Authentication
            &&& code == 1_031 <==> error.category == ErrorCategory::PermissionDenied
            &&& (code == 942 || code == 12_005 || code == 12_014) <==> error.category
                == ErrorCategory::NotFound
            &&& code == 1_013 <==> error.category == ErrorCategory::Cancelled
            &&& (write && (code == 12_170 || lost)) <==> error.category
                == ErrorCategory::UnknownOutcome
            &&& (!write && code == 12_170) <==> error.category == ErrorCategory::Timeout
            &&& (!write && lost) <==> error.category == ErrorCategory::Unavailable
            &&& error.category == ErrorCategory::InvalidRequest <==> (900 <= code <= 999 && code
                != 942) || 1_400 <= code <= 1_499
            &&& error.retryable <==> code == 54 || code == 60 || (!write && (code == 12_170 || lost))
        }),
{
}

/// What SQL Server answers by its codes.
pub proof fn lemma_tds_codes_have_their_meaning(cause: TdsFailure, write: bool)
    ensures
        cause matches TdsFailure::Server { code } ==> {
            let error = tds_error(cause, write);
            &&& error.code == Some(decimal(code as nat))
            &&& code == 18_456 <==> error.category == ErrorCategory::Authentication
            &&& (code == 229 || code == 230 || code == 262) <==> error.category
                == ErrorCategory::PermissionDenied
            &&& code == 208 <==> error.category == ErrorCategory::NotFound
            &&& (code == 2_601 || code == 2_627 || code == 1_205) <==> error.category
                == ErrorCategory::Conflict
            &&& code == 1_222 <==> error.category == ErrorCategory::Timeout
            &&& (code == 102 || code == 156 || code == 207 || code == 245) <==> error.category
                == ErrorCategory::InvalidRequest
            &&& error.retryable <==> code == 1_205 || code == 1_222
        },
{
}

/// Oracle's other failures, and those of connection pools.
pub proof fn lemma_other_failures_have_their_meaning(
    cause: OracleFailure,
    write: bool,
    product: Seq<char>,
    pool: PoolFailure,
    message: Seq<char>,
)
    ensures
        cause.kind is InvalidCredentials || cause.kind is Authentication ==> oracle_error(
            cause,
            write,
        ).category == ErrorCategory::Authentication && !oracle_error(cause, write).retryable,
        cause.kind is InvalidConnectionString ==> oracle_error(cause, write).category
            == ErrorCategory::InvalidRequest,
        cause.kind is UnknownService ==> oracle_error(cause, write).category
            == ErrorCategory::NotFound,
        cause.kind is Unsupported ==> oracle_error(cause, write).category
            == ErrorCategory::Unsupported,
        is_open(unknown_write(cause, message)) && unknown_write(cause, message).message == message,
        pool is Timeout ==> pool_error(product, pool).category == ErrorCategory::Timeout,
        pool is Closed ==> pool_error(product, pool).category == ErrorCategory::Unavailable
            && pool_error(product, pool).retryable,
        pool is Other ==> pool_error(product, pool).category == ErrorCategory::Internal,
{
}

/// Only a read asks for a time of its own.
pub proof fn lemma_reads_ask_for_their_time(operation: DataOperation)
    ensures
        operation matches DataOperation::Read(request) ==> operation_timeout(operation)
            == request.options.timeout_ms,
        !(operation is Read) ==> operation_timeout(operation) is None,
{
}

} // verus!
