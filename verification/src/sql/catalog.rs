//! What a relational connector asks of the catalog of its server.
use crate::budget::smaller;
use crate::model::{
    entities, invalid, invalid_request, CatalogEntity, CatalogFetch, CatalogQuery,
    ConnectionProfile, ConnectorContext, ConnectorError, EntityModel, ErrorModel,
};
use crate::sql::cursor::{catalog_fetch_inputs, decode_offset, fetch_result, offset_result};
use crate::sql::limits::row_limit_result;
use crate::sql::mysql_catalog::{
    entity_of, mysql_catalog_query, mysql_catalog_values, table_entity, MYSQL_SEARCH,
};
use crate::sql::oracle::{oracle_catalog, oracle_catalog_query};
use crate::sql::oracle_values::{cell_text, string_cell, CatalogCell};
use crate::sql::plan::SqlProduct;
use crate::sql::postgres::{pg_catalog_query, pg_catalog_result};
use crate::sql::sql_server_catalog::{
    required_tds_string, required_text, tds_catalog, tds_catalog_query,
};
use crate::sql::statement::{is_query_result, BuiltQuery, QueryModel};
use crate::text::{borrowed, optional_text};
use crate::value::{DbValue, ValueModel};
use vstd::prelude::*;

verus! {

broadcast use crate::value::group_models;

/// The identity of a MySQL server.
pub const MYSQL_IDENTITY: &'static str =
    "SELECT VERSION(), DATABASE(), CURRENT_USER()";

/// The kind and the comment of a table of MySQL.
pub const MYSQL_TABLE: &'static str =
    "SELECT TABLE_TYPE, TABLE_COMMENT FROM information_schema.tables WHERE TABLE_SCHEMA = \
    ? AND TABLE_NAME = ?";

/// The columns of a table of MySQL.
pub const MYSQL_COLUMNS: &'static str =
    "SELECT COLUMN_NAME, COLUMN_TYPE, IS_NULLABLE, ORDINAL_POSITION, COLUMN_COMMENT FROM \
    information_schema.columns WHERE TABLE_SCHEMA = ? AND TABLE_NAME = ? ORDER BY \
    ORDINAL_POSITION";

/// The primary key and the unique constraints of a table of MySQL.
pub const MYSQL_CONSTRAINTS: &'static str =
    "SELECT TC.CONSTRAINT_NAME, TC.CONSTRAINT_TYPE, KCU.COLUMN_NAME, KCU.ORDINAL_POSITION \
    FROM information_schema.table_constraints AS TC INNER JOIN \
    information_schema.key_column_usage AS KCU ON KCU.CONSTRAINT_SCHEMA = \
    TC.CONSTRAINT_SCHEMA AND KCU.TABLE_SCHEMA = TC.TABLE_SCHEMA AND KCU.TABLE_NAME = \
    TC.TABLE_NAME AND KCU.CONSTRAINT_NAME = TC.CONSTRAINT_NAME WHERE TC.TABLE_SCHEMA = ? \
    AND TC.TABLE_NAME = ? AND TC.CONSTRAINT_TYPE IN ('PRIMARY KEY', 'UNIQUE') ORDER BY \
    TC.CONSTRAINT_TYPE, TC.CONSTRAINT_NAME, KCU.ORDINAL_POSITION";

/// The foreign keys of a table of MySQL.
pub const MYSQL_FOREIGN_KEYS: &'static str =
    "SELECT CONSTRAINT_NAME, COLUMN_NAME, REFERENCED_TABLE_SCHEMA, REFERENCED_TABLE_NAME, \
    REFERENCED_COLUMN_NAME, ORDINAL_POSITION FROM information_schema.key_column_usage \
    WHERE TABLE_SCHEMA = ? AND TABLE_NAME = ? AND REFERENCED_TABLE_NAME IS NOT NULL \
    ORDER BY CONSTRAINT_NAME, ORDINAL_POSITION";

/// The indexes of a table of MySQL.
pub const MYSQL_INDEXES: &'static str =
    "SELECT INDEX_NAME, NON_UNIQUE, COLUMN_NAME, SEQ_IN_INDEX FROM \
    information_schema.statistics WHERE TABLE_SCHEMA = ? AND TABLE_NAME = ? ORDER BY \
    INDEX_NAME, SEQ_IN_INDEX";

/// The identity of a PostgreSQL server.
pub const POSTGRES_IDENTITY: &'static str =
    "SELECT version(), current_database(), current_user";

/// The columns of a table of PostgreSQL.
pub const POSTGRES_COLUMNS: &'static str =
    "SELECT column_name, data_type, is_nullable, ordinal_position::bigint FROM \
    information_schema.columns WHERE table_schema = $1 AND table_name = $2 ORDER BY \
    ordinal_position";

/// The identity of an Oracle server.
pub const ORACLE_IDENTITY: &'static str =
    "SELECT SYS_CONTEXT('USERENV', 'DB_NAME'), SYS_CONTEXT('USERENV', 'CURRENT_SCHEMA') \
    FROM DUAL";

/// The columns of a table of Oracle.
pub const ORACLE_COLUMNS: &'static str =
    "SELECT COLUMN_NAME, DATA_TYPE, NULLABLE, COLUMN_ID, DATA_LENGTH, DATA_PRECISION, \
    DATA_SCALE FROM ALL_TAB_COLUMNS WHERE OWNER = :1 AND TABLE_NAME = :2 ORDER BY \
    COLUMN_ID";

/// The identity of a SQL Server.
pub const SQL_SERVER_IDENTITY: &'static str =
    "SELECT CAST(SERVERPROPERTY('ProductVersion') AS nvarchar(128)) AS version, DB_NAME() \
    AS database_name, SUSER_SNAME() AS user_name";

/// The columns of a table of SQL Server.
pub const SQL_SERVER_COLUMNS: &'static str =
    "SELECT C.COLUMN_NAME, C.DATA_TYPE, C.IS_NULLABLE, C.ORDINAL_POSITION, \
    CONVERT(nvarchar(max), CP.value) AS COLUMN_COMMENT, CONVERT(nvarchar(max), TP.value) \
    AS TABLE_COMMENT FROM INFORMATION_SCHEMA.COLUMNS AS C LEFT JOIN sys.schemas AS S ON \
    S.name = C.TABLE_SCHEMA LEFT JOIN sys.objects AS O ON O.schema_id = S.schema_id AND \
    O.name = C.TABLE_NAME AND O.type IN ('U', 'V') LEFT JOIN sys.columns AS SC ON \
    SC.object_id = O.object_id AND SC.name = C.COLUMN_NAME LEFT JOIN \
    sys.extended_properties AS CP ON CP.class = 1 AND CP.major_id = O.object_id AND \
    CP.minor_id = SC.column_id AND CP.name = N'MS_Description' LEFT JOIN \
    sys.extended_properties AS TP ON TP.class = 1 AND TP.major_id = O.object_id AND \
    TP.minor_id = 0 AND TP.name = N'MS_Description' WHERE C.TABLE_SCHEMA = @P1 AND \
    C.TABLE_NAME = @P2 ORDER BY C.ORDINAL_POSITION";

/// The keys and unique constraints of a table of SQL Server.
pub const SQL_SERVER_CONSTRAINTS: &'static str =
    "SELECT CONSTRAINT_KIND, CONSTRAINT_NAME, COLUMN_NAME, ORDINAL, REFERENCED_SCHEMA, \
    REFERENCED_TABLE, REFERENCED_COLUMN FROM ( SELECT CAST(CASE KC.type WHEN 'PK' THEN \
    N'PRIMARY_KEY' ELSE N'UNIQUE_CONSTRAINT' END AS nvarchar(32)) AS CONSTRAINT_KIND, \
    KC.name AS CONSTRAINT_NAME, C.name AS COLUMN_NAME, CAST(CASE WHEN IC.key_ordinal > 0 \
    THEN IC.key_ordinal ELSE IC.index_column_id END AS int) AS ORDINAL, CAST(NULL AS \
    nvarchar(128)) AS REFERENCED_SCHEMA, CAST(NULL AS nvarchar(128)) AS \
    REFERENCED_TABLE, CAST(NULL AS nvarchar(128)) AS REFERENCED_COLUMN FROM \
    sys.key_constraints AS KC INNER JOIN sys.objects AS O ON O.object_id = \
    KC.parent_object_id INNER JOIN sys.schemas AS S ON S.schema_id = O.schema_id INNER \
    JOIN sys.index_columns AS IC ON IC.object_id = KC.parent_object_id AND IC.index_id = \
    KC.unique_index_id AND IC.is_included_column = 0 INNER JOIN sys.columns AS C ON \
    C.object_id = IC.object_id AND C.column_id = IC.column_id WHERE S.name = @P1 AND \
    O.name = @P2 AND KC.type IN ('PK', 'UQ') UNION ALL SELECT CAST(N'FOREIGN_KEY' AS \
    nvarchar(32)) AS CONSTRAINT_KIND, FK.name AS CONSTRAINT_NAME, PC.name AS \
    COLUMN_NAME, FKC.constraint_column_id AS ORDINAL, RS.name AS REFERENCED_SCHEMA, \
    RO.name AS REFERENCED_TABLE, RC.name AS REFERENCED_COLUMN FROM sys.foreign_keys AS \
    FK INNER JOIN sys.foreign_key_columns AS FKC ON FKC.constraint_object_id = \
    FK.object_id INNER JOIN sys.objects AS PO ON PO.object_id = FK.parent_object_id \
    INNER JOIN sys.schemas AS PS ON PS.schema_id = PO.schema_id INNER JOIN sys.columns \
    AS PC ON PC.object_id = FKC.parent_object_id AND PC.column_id = FKC.parent_column_id \
    INNER JOIN sys.objects AS RO ON RO.object_id = FKC.referenced_object_id INNER JOIN \
    sys.schemas AS RS ON RS.schema_id = RO.schema_id INNER JOIN sys.columns AS RC ON \
    RC.object_id = FKC.referenced_object_id AND RC.column_id = FKC.referenced_column_id \
    WHERE PS.name = @P1 AND PO.name = @P2 ) AS RELATION_COLUMNS ORDER BY \
    CONSTRAINT_KIND, CONSTRAINT_NAME, ORDINAL";

/// The indexes of a table of SQL Server.
pub const SQL_SERVER_INDEXES: &'static str =
    "SELECT I.name, C.name, CAST(CASE WHEN IC.key_ordinal > 0 THEN IC.key_ordinal ELSE \
    IC.index_column_id END AS int) AS ORDINAL, I.is_unique FROM sys.indexes AS I INNER \
    JOIN sys.objects AS O ON O.object_id = I.object_id INNER JOIN sys.schemas AS S ON \
    S.schema_id = O.schema_id INNER JOIN sys.index_columns AS IC ON IC.object_id = \
    I.object_id AND IC.index_id = I.index_id AND (IC.is_included_column = 0 OR I.type IN \
    (5, 6)) INNER JOIN sys.columns AS C ON C.object_id = IC.object_id AND C.column_id = \
    IC.column_id WHERE S.name = @P1 AND O.name = @P2 AND I.index_id > 0 AND \
    I.is_hypothetical = 0 ORDER BY I.name, ORDINAL";

/// Which rows of the catalog a search returns.
#[derive(Debug, Clone, Copy, PartialEq, Eq, Structural)]
pub struct CatalogWindow {
    pub limit: u32,
    pub offset: u64,
}

/// The rows that a search returns: as many as all its limits allow, from the offset of its cursor
/// on.
pub open spec fn window_result(fetch: CatalogFetch, cursor: Option<Seq<char>>) -> Result<
    CatalogWindow,
    ErrorModel,
> {
    if fetch.limit == 0 {
        Err(invalid_request("catalog limit must be greater than zero"@))
    } else {
        match offset_result(cursor) {
            Err(error) => Err(error),
            Ok(offset) => Ok(
                CatalogWindow {
                    limit: smaller(
                        smaller(fetch.limit as int, fetch.context_rows as int),
                        fetch.policy_rows as int,
                    ) as u32,
                    offset,
                },
            ),
        }
    }
}

/// The rows that a search returns.
pub fn catalog_window(fetch: CatalogFetch, cursor: Option<&str>) -> (result: Result<
    CatalogWindow,
    ConnectorError,
>)
    ensures
        match (result, window_result(fetch, crate::text::optional_str(cursor))) {
            (Ok(window), Ok(wanted)) => window == wanted,
            (Err(error), Err(wanted)) => error@ == wanted,
            _ => false,
        },
{
    if fetch.limit == 0 {
        return Err(invalid("catalog limit must be greater than zero"));
    }
    match decode_offset(cursor) {
        Err(error) => Err(error),
        Ok(offset) => {
            let mut limit: u32 = fetch.limit;
            if fetch.context_rows < limit {
                limit = fetch.context_rows;
            }
            if fetch.policy_rows < limit {
                limit = fetch.policy_rows;
            }
            Ok(CatalogWindow { limit, offset })
        },
    }
}

/// The limits of a search that is no page of a longer one.
pub open spec fn search_limits(
    context: ConnectorContext,
    profile: ConnectionProfile,
    query: CatalogQuery,
) -> CatalogFetch {
    CatalogFetch {
        context_rows: context.max_rows,
        policy_rows: profile.policy.max_rows,
        limit: query.limit,
    }
}

/// The statement that searches the catalog of a product.
pub open spec fn search_statement_result(
    product: SqlProduct,
    profile: ConnectionProfile,
    query: CatalogQuery,
    fetch: CatalogFetch,
) -> Result<QueryModel, ErrorModel> {
    match window_result(fetch, optional_text(query.cursor)) {
        Err(error) => Err(error),
        Ok(window) => match product {
            SqlProduct::PostgreSql | SqlProduct::CockroachDb | SqlProduct::YugabyteYsql =>
                pg_catalog_result(query, window.limit, window.offset),
            SqlProduct::MySql | SqlProduct::TiDb | SqlProduct::OceanBaseMySql => Ok(
                QueryModel {
                    sql: MYSQL_SEARCH@,
                    parameters: mysql_catalog_values(
                        query,
                        optional_text(profile.database),
                        window.limit,
                        window.offset,
                    ),
                    row_limit: None,
                    base_offset: None,
                },
            ),
            SqlProduct::Oracle => Ok(oracle_catalog(query, window.limit, window.offset)),
            SqlProduct::SqlServer => Ok(tds_catalog(query, window.limit, window.offset)),
        },
    }
}

/// Builds the statement that searches the catalog of a product.
fn build_search(
    product: SqlProduct,
    profile: &ConnectionProfile,
    query: &CatalogQuery,
    fetch: CatalogFetch,
) -> (result: Result<BuiltQuery, ConnectorError>)
    ensures
        is_query_result(result, search_statement_result(product, *profile, *query, fetch)),
{
    let window = match catalog_window(fetch, borrowed(&query.cursor)) {
        Err(error) => {
            return Err(error);
        },
        Ok(window) => window,
    };
    match product {
        SqlProduct::PostgreSql | SqlProduct::CockroachDb | SqlProduct::YugabyteYsql =>
            pg_catalog_query(query, window.limit, window.offset),
        SqlProduct::MySql | SqlProduct::TiDb | SqlProduct::OceanBaseMySql => Ok(
            mysql_catalog_query(query, borrowed(&profile.database), window.limit, window.offset),
        ),
        SqlProduct::Oracle => Ok(oracle_catalog_query(query, window.limit, window.offset)),
        SqlProduct::SqlServer => Ok(tds_catalog_query(query, window.limit, window.offset)),
    }
}

/// Builds the statement of a search of the catalog.
pub fn search_catalog(
    product: SqlProduct,
    context: &ConnectorContext,
    profile: &ConnectionProfile,
    query: &CatalogQuery,
) -> (result: Result<BuiltQuery, ConnectorError>)
    ensures
        is_query_result(
            result,
            search_statement_result(
                product,
                *profile,
                *query,
                search_limits(*context, *profile, *query),
            ),
        ),
{
    build_search(
        product,
        profile,
        query,
        CatalogFetch {
            context_rows: context.max_rows,
            policy_rows: profile.policy.max_rows,
            limit: query.limit,
        },
    )
}

/// The statement of a search for a page of the catalog.
pub open spec fn page_statement_result(
    product: SqlProduct,
    context: ConnectorContext,
    profile: ConnectionProfile,
    query: CatalogQuery,
) -> Result<QueryModel, ErrorModel> {
    match fetch_result(context, profile, query) {
        Err(error) => Err(error),
        Ok(fetch) => search_statement_result(product, profile, query, fetch),
    }
}

/// Builds the statement of a search for a page of the catalog, which returns one row more than the
/// page may hold where there is one.
pub fn search_catalog_page(
    product: SqlProduct,
    context: &ConnectorContext,
    profile: &ConnectionProfile,
    query: &CatalogQuery,
) -> (result: Result<BuiltQuery, ConnectorError>)
    ensures
        is_query_result(result, page_statement_result(product, *context, *profile, *query)),
{
    match catalog_fetch_inputs(context, profile, query) {
        Err(error) => Err(error),
        Ok(fetch) => build_search(product, profile, query, fetch),
    }
}

/// A search for a page asks for exactly one row more than the page may hold.
pub proof fn lemma_pages_ask_for_one_more(
    context: ConnectorContext,
    profile: ConnectionProfile,
    query: CatalogQuery,
)
    requires
        fetch_result(context, profile, query) is Ok,
        offset_result(optional_text(query.cursor)) is Ok,
    ensures
        window_result(
            fetch_result(context, profile, query)->Ok_0,
            optional_text(query.cursor),
        ) matches Ok(window) && window.limit == row_limit_result(
            context,
            profile,
            query.limit,
        )->Ok_0 + 1 && window.offset == offset_result(optional_text(query.cursor))->Ok_0,
{
}

/// The statement that asks a server of a product who it is.
pub open spec fn identity_sql(product: SqlProduct) -> Seq<char> {
    match product {
        SqlProduct::PostgreSql
        | SqlProduct::CockroachDb
        | SqlProduct::YugabyteYsql => POSTGRES_IDENTITY@,
        SqlProduct::MySql | SqlProduct::TiDb | SqlProduct::OceanBaseMySql => MYSQL_IDENTITY@,
        SqlProduct::Oracle => ORACLE_IDENTITY@,
        SqlProduct::SqlServer => SQL_SERVER_IDENTITY@,
    }
}

/// The statement that asks a server of a product who it is.
pub fn identity_statement(product: SqlProduct) -> (result: &'static str)
    ensures
        result@ == identity_sql(product),
{
    match product {
        SqlProduct::PostgreSql
        | SqlProduct::CockroachDb
        | SqlProduct::YugabyteYsql => POSTGRES_IDENTITY,
        SqlProduct::MySql | SqlProduct::TiDb | SqlProduct::OceanBaseMySql => MYSQL_IDENTITY,
        SqlProduct::Oracle => ORACLE_IDENTITY,
        SqlProduct::SqlServer => SQL_SERVER_IDENTITY,
    }
}

/// The statements that describe a table, in the order in which they are sent.
pub open spec fn describe_sql(product: SqlProduct) -> Seq<Seq<char>> {
    match product {
        SqlProduct::PostgreSql
        | SqlProduct::CockroachDb
        | SqlProduct::YugabyteYsql => seq![POSTGRES_COLUMNS@],
        SqlProduct::MySql | SqlProduct::TiDb | SqlProduct::OceanBaseMySql => seq![
            MYSQL_TABLE@,
            MYSQL_COLUMNS@,
            MYSQL_CONSTRAINTS@,
            MYSQL_FOREIGN_KEYS@,
            MYSQL_INDEXES@,
        ],
        SqlProduct::Oracle => seq![ORACLE_COLUMNS@],
        SqlProduct::SqlServer => seq![
            SQL_SERVER_COLUMNS@,
            SQL_SERVER_CONSTRAINTS@,
            SQL_SERVER_INDEXES@,
        ],
    }
}

/// A statement about a table, whose namespace and name are its values.
pub open spec fn table_query(sql: Seq<char>, namespace: Seq<char>, table: Seq<char>) -> QueryModel {
    QueryModel {
        sql,
        parameters: seq![ValueModel::String(namespace)].push(ValueModel::String(table)),
        row_limit: None,
        base_offset: None,
    }
}

/// Builds the statements that describe a table. Its names are values of theirs and no part of
/// their text.
pub fn describe_statements(product: SqlProduct, namespace: &str, table: &str) -> (result: Vec<
    BuiltQuery,
>)
    ensures
        result@.len() == describe_sql(product).len(),
        forall|i: int|
            0 <= i < result@.len() ==> (#[trigger] result@[i])@ == table_query(
                describe_sql(product)[i],
                namespace@,
                table@,
            ),
{
    let mut list: Vec<&'static str> = Vec::new();
    match product {
        SqlProduct::PostgreSql | SqlProduct::CockroachDb | SqlProduct::YugabyteYsql => {
            list.push(POSTGRES_COLUMNS);
        },
        SqlProduct::MySql | SqlProduct::TiDb | SqlProduct::OceanBaseMySql => {
            list.push(MYSQL_TABLE);
            list.push(MYSQL_COLUMNS);
            list.push(MYSQL_CONSTRAINTS);
            list.push(MYSQL_FOREIGN_KEYS);
            list.push(MYSQL_INDEXES);
        },
        SqlProduct::Oracle => {
            list.push(ORACLE_COLUMNS);
        },
        SqlProduct::SqlServer => {
            list.push(SQL_SERVER_COLUMNS);
            list.push(SQL_SERVER_CONSTRAINTS);
            list.push(SQL_SERVER_INDEXES);
        },
    }
    let mut result: Vec<BuiltQuery> = Vec::new();
    let mut i: usize = 0;
    while i < list.len()
        invariant
            i <= list@.len(),
            list@.len() == describe_sql(product).len(),
            forall|j: int|
                0 <= j < list@.len() ==> (#[trigger] list@[j])@ == describe_sql(product)[j],
            result@.len() == i,
            forall|j: int|
                0 <= j < i ==> (#[trigger] result@[j])@ == table_query(
                    describe_sql(product)[j],
                    namespace@,
                    table@,
                ),
        decreases list@.len() - i,
    {
        let mut parameters: Vec<DbValue> = Vec::new();
        parameters.push(DbValue::String(namespace.to_owned()));
        parameters.push(DbValue::String(table.to_owned()));
        result.push(
            BuiltQuery {
                sql: list[i].to_owned(),
                parameters,
                row_limit: None,
                base_offset: None,
            },
        );
        i = i + 1;
    }
    result
}

/// The entity of a catalog row of Oracle.
pub open spec fn oracle_entity(row: (CatalogCell, CatalogCell, CatalogCell)) -> Result<EntityModel, ErrorModel> {
    match (cell_text(row.0), cell_text(row.1), cell_text(row.2)) {
        (Err(error), _, _) => Err(error),
        (_, Err(error), _) => Err(error),
        (_, _, Err(error)) => Err(error),
        (Ok(namespace), Ok(name), Ok(kind)) => Ok(table_entity(namespace, name, kind)),
    }
}

/// The entities of catalog rows of Oracle; the error of the first row that has one.
pub open spec fn oracle_entities(rows: Seq<(CatalogCell, CatalogCell, CatalogCell)>) -> Result<
    Seq<EntityModel>,
    ErrorModel,
>
    decreases rows.len(),
{
    if rows.len() == 0 {
        Ok(Seq::empty())
    } else {
        match oracle_entities(rows.drop_last()) {
            Err(error) => Err(error),
            Ok(before) => match oracle_entity(rows.last()) {
                Err(error) => Err(error),
                Ok(last) => Ok(before.push(last)),
            },
        }
    }
}

/// An error in the first rows is the error of them all.
proof fn lemma_oracle_rows_fail_early(rows: Seq<(CatalogCell, CatalogCell, CatalogCell)>, count: int)
    requires
        0 <= count <= rows.len(),
        oracle_entities(rows.subrange(0, count)) is Err,
    ensures
        oracle_entities(rows) == oracle_entities(rows.subrange(0, count)),
    decreases rows.len(),
{
    if count == rows.len() {
        assert(rows.subrange(0, count) =~= rows);
    } else {
        assert(rows.drop_last().subrange(0, count) =~= rows.subrange(0, count));
        lemma_oracle_rows_fail_early(rows.drop_last(), count);
    }
}

/// Reads a catalog row of Oracle.
fn read_oracle_entity(row: &(CatalogCell, CatalogCell, CatalogCell)) -> (result: Result<
    CatalogEntity,
    ConnectorError,
>)
    ensures
        match (result, oracle_entity(*row)) {
            (Ok(entity), Ok(wanted)) => entity@ == wanted,
            (Err(error), Err(wanted)) => error@ == wanted,
            _ => false,
        },
{
    let namespace = match string_cell(&row.0) {
        Err(error) => {
            return Err(error);
        },
        Ok(text) => text,
    };
    let name = match string_cell(&row.1) {
        Err(error) => {
            return Err(error);
        },
        Ok(text) => text,
    };
    let kind = match string_cell(&row.2) {
        Err(error) => {
            return Err(error);
        },
        Ok(text) => text,
    };
    Ok(entity_of(namespace.as_str(), name.as_str(), kind.as_str()))
}

/// Reads the catalog rows of Oracle: namespace, name and kind.
pub fn read_oracle_entities(rows: &Vec<(CatalogCell, CatalogCell, CatalogCell)>) -> (result: Result<
    Vec<CatalogEntity>,
    ConnectorError,
>)
    ensures
        match (result, oracle_entities(rows@)) {
            (Ok(list), Ok(wanted)) => entities(list@) == wanted,
            (Err(error), Err(wanted)) => error@ == wanted,
            _ => false,
        },
{
    let mut result: Vec<CatalogEntity> = Vec::new();
    let mut i: usize = 0;
    assert(rows@.subrange(0, 0) =~= Seq::<(CatalogCell, CatalogCell, CatalogCell)>::empty());
    assert(entities(result@) =~= Seq::<EntityModel>::empty());
    while i < rows.len()
        invariant
            i <= rows@.len(),
            oracle_entities(rows@.subrange(0, i as int)) == Ok::<Seq<EntityModel>, ErrorModel>(
                entities(result@),
            ),
        decreases rows@.len() - i,
    {
        let ghost next = rows@.subrange(0, i + 1);
        assert(next.drop_last() =~= rows@.subrange(0, i as int));
        assert(next.last() == rows@[i as int]);
        let ghost before = result@;
        match read_oracle_entity(&rows[i]) {
            Err(error) => {
                proof {
                    lemma_oracle_rows_fail_early(rows@, i + 1);
                }
                return Err(error);
            },
            Ok(entity) => {
                let ghost model = entity@;
                result.push(entity);
                assert(entities(result@) =~= entities(before).push(model));
            },
        }
        i = i + 1;
    }
    assert(rows@.subrange(0, i as int) =~= rows@);
    Ok(result)
}

/// The entity of a catalog row of SQL Server.
pub open spec fn tds_entity(row: (Option<String>, Option<String>, Option<String>)) -> Result<EntityModel, ErrorModel> {
    match (required_text(row.0), required_text(row.1), required_text(row.2)) {
        (Err(error), _, _) => Err(error),
        (_, Err(error), _) => Err(error),
        (_, _, Err(error)) => Err(error),
        (Ok(namespace), Ok(name), Ok(kind)) => Ok(table_entity(namespace, name, kind)),
    }
}

/// The entities of catalog rows of SQL Server; the error of the first row that has one.
pub open spec fn tds_entities(rows: Seq<(Option<String>, Option<String>, Option<String>)>) -> Result<
    Seq<EntityModel>,
    ErrorModel,
>
    decreases rows.len(),
{
    if rows.len() == 0 {
        Ok(Seq::empty())
    } else {
        match tds_entities(rows.drop_last()) {
            Err(error) => Err(error),
            Ok(before) => match tds_entity(rows.last()) {
                Err(error) => Err(error),
                Ok(last) => Ok(before.push(last)),
            },
        }
    }
}

/// An error in the first rows is the error of them all.
proof fn lemma_tds_rows_fail_early(rows: Seq<(Option<String>, Option<String>, Option<String>)>, count: int)
    requires
        0 <= count <= rows.len(),
        tds_entities(rows.subrange(0, count)) is Err,
    ensures
        tds_entities(rows) == tds_entities(rows.subrange(0, count)),
    decreases rows.len(),
{
    if count == rows.len() {
        assert(rows.subrange(0, count) =~= rows);
    } else {
        assert(rows.drop_last().subrange(0, count) =~= rows.subrange(0, count));
        lemma_tds_rows_fail_early(rows.drop_last(), count);
    }
}

/// Reads a catalog row of SQL Server.
fn read_tds_entity(row: &(Option<String>, Option<String>, Option<String>)) -> (result: Result<
    CatalogEntity,
    ConnectorError,
>)
    ensures
        match (result, tds_entity(*row)) {
            (Ok(entity), Ok(wanted)) => entity@ == wanted,
            (Err(error), Err(wanted)) => error@ == wanted,
            _ => false,
        },
{
    let namespace = match required_tds_string(&row.0) {
        Err(error) => {
            return Err(error);
        },
        Ok(text) => text,
    };
    let name = match required_tds_string(&row.1) {
        Err(error) => {
            return Err(error);
        },
        Ok(text) => text,
    };
    let kind = match required_tds_string(&row.2) {
        Err(error) => {
            return Err(error);
        },
        Ok(text) => text,
    };
    Ok(entity_of(namespace.as_str(), name.as_str(), kind.as_str()))
}

/// Reads the catalog rows of SQL Server: namespace, name and kind.
pub fn read_tds_entities(rows: &Vec<(Option<String>, Option<String>, Option<String>)>) -> (result: Result<
    Vec<CatalogEntity>,
    ConnectorError,
>)
    ensures
        match (result, tds_entities(rows@)) {
            (Ok(list), Ok(wanted)) => entities(list@) == wanted,
            (Err(error), Err(wanted)) => error@ == wanted,
            _ => false,
        },
{
    let mut result: Vec<CatalogEntity> = Vec::new();
    let mut i: usize = 0;
    assert(rows@.subrange(0, 0) =~= Seq::<(Option<String>, Option<String>, Option<String>)>::empty());
    assert(entities(result@) =~= Seq::<EntityModel>::empty());
    while i < rows.len()
        invariant
            i <= rows@.len(),
            tds_entities(rows@.subrange(0, i as int)) == Ok::<Seq<EntityModel>, ErrorModel>(
                entities(result@),
            ),
        decreases rows@.len() - i,
    {
        let ghost next = rows@.subrange(0, i + 1);
        assert(next.drop_last() =~= rows@.subrange(0, i as int));
        assert(next.last() == rows@[i as int]);
        let ghost before = result@;
        match read_tds_entity(&rows[i]) {
            Err(error) => {
                proof {
                    lemma_tds_rows_fail_early(rows@, i + 1);
                }
                return Err(error);
            },
            Ok(entity) => {
                let ghost model = entity@;
                result.push(entity);
                assert(entities(result@) =~= entities(before).push(model));
            },
        }
        i = i + 1;
    }
    assert(rows@.subrange(0, i as int) =~= rows@);
    Ok(result)
}

} // verus!
