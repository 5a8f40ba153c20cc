//! What the statements that ask a catalog about a table select.
use crate::sql::catalog::{
    MYSQL_COLUMNS, MYSQL_CONSTRAINTS, MYSQL_FOREIGN_KEYS, MYSQL_INDEXES, MYSQL_TABLE,
    ORACLE_COLUMNS, POSTGRES_COLUMNS, SQL_SERVER_COLUMNS, SQL_SERVER_CONSTRAINTS,
    SQL_SERVER_INDEXES,
};
use crate::sql::mysql_catalog::MYSQL_SEARCH;
use crate::sql::postgres::POSTGRES_SEARCH;
use crate::sql::sql_server_catalog::SQL_SERVER_SEARCH;
use vstd::prelude::*;

verus! {

/// Whether a statement selects by a condition, with no placeholder before or behind it.
pub open spec fn selects_by(
    text: Seq<char>,
    before: Seq<char>,
    condition: Seq<char>,
    behind: Seq<char>,
    mark: char,
) -> bool {
    text == before + condition + behind && !before.contains(mark) && !behind.contains(mark)
}

/// Whether a statement selects by a condition alone.
pub open spec fn asks_by(text: Seq<char>, condition: Seq<char>, mark: char) -> bool {
    exists|before: Seq<char>, behind: Seq<char>| #[trigger]
        selects_by(text, before, condition, behind, mark)
}

/// The kind of a table of MySQL is asked for by its schema and its name.
pub proof fn lemma_mysql_tables_are_found()
    ensures
        asks_by(MYSQL_TABLE@, " WHERE TABLE_SCHEMA = ? AND TABLE_NAME = ?"@, '?'),
{
    reveal_strlit("SELECT TABLE_TYPE, TABLE_COMMENT FROM information_schema.tables WHERE TABLE_SCHEMA = ? AND TABLE_NAME = ?");
    reveal_strlit("SELECT TABLE_TYPE, TABLE_COMMENT FROM information_schema.tables");
    reveal_strlit(" WHERE TABLE_SCHEMA = ? AND TABLE_NAME = ?");
    let before = "SELECT TABLE_TYPE, TABLE_COMMENT FROM information_schema.tables"@;
    let condition = " WHERE TABLE_SCHEMA = ? AND TABLE_NAME = ?"@;
    let behind = Seq::<char>::empty();
    assert(before.len() == 63 && condition.len() == 42 && behind.len() == 0);
    assert(MYSQL_TABLE@ =~= before + condition + behind);
    assert(!before.contains('?'));
    assert(!behind.contains('?'));
    assert(selects_by(MYSQL_TABLE@, before, condition, behind, '?'));
}

/// The columns of a table of MySQL are asked for by its schema and its name.
pub proof fn lemma_mysql_columns_are_found()
    ensures
        asks_by(MYSQL_COLUMNS@, " WHERE TABLE_SCHEMA = ? AND TABLE_NAME = ?"@, '?'),
{
    reveal_strlit("SELECT COLUMN_NAME, COLUMN_TYPE, IS_NULLABLE, ORDINAL_POSITION, COLUMN_COMMENT FROM information_schema.columns WHERE TABLE_SCHEMA = ? AND TABLE_NAME = ? ORDER BY ORDINAL_POSITION");
    reveal_strlit("SELECT COLUMN_NAME, COLUMN_TYPE, IS_NULLABLE, ORDINAL_POSITION, COLUMN_COMMENT FROM information_schema.columns");
    reveal_strlit(" WHERE TABLE_SCHEMA = ? AND TABLE_NAME = ?");
    reveal_strlit(" ORDER BY ORDINAL_POSITION");
    let before = "SELECT COLUMN_NAME, COLUMN_TYPE, IS_NULLABLE, ORDINAL_POSITION, COLUMN_COMMENT FROM information_schema.columns"@;
    let condition = " WHERE TABLE_SCHEMA = ? AND TABLE_NAME = ?"@;
    let behind = " ORDER BY ORDINAL_POSITION"@;
    assert(before.len() == 110 && condition.len() == 42 && behind.len() == 26);
    assert(MYSQL_COLUMNS@ =~= before + condition + behind);
    assert(!before.contains('?'));
    assert(!behind.contains('?'));
    assert(selects_by(MYSQL_COLUMNS@, before, condition, behind, '?'));
}

/// The foreign keys of a table of MySQL are asked for by its schema and its name.
pub proof fn lemma_mysql_foreign_keys_are_found()
    ensures
        asks_by(MYSQL_FOREIGN_KEYS@, " WHERE TABLE_SCHEMA = ? AND TABLE_NAME = ?"@, '?'),
{
    reveal_strlit("SELECT CONSTRAINT_NAME, COLUMN_NAME, REFERENCED_TABLE_SCHEMA, REFERENCED_TABLE_NAME, REFERENCED_COLUMN_NAME, ORDINAL_POSITION FROM information_schema.key_column_usage WHERE TABLE_SCHEMA = ? AND TABLE_NAME = ? AND REFERENCED_TABLE_NAME IS NOT NULL ORDER BY CONSTRAINT_NAME, ORDINAL_POSITION");
    reveal_strlit("SELECT CONSTRAINT_NAME, COLUMN_NAME, REFERENCED_TABLE_SCHEMA, REFERENCED_TABLE_NAME, REFERENCED_COLUMN_NAME, ORDINAL_POSITION FROM information_schema.key_column_usage");
    reveal_strlit(" WHERE TABLE_SCHEMA = ? AND TABLE_NAME = ?");
    reveal_strlit(" AND REFERENCED_TABLE_NAME IS NOT NULL ORDER BY CONSTRAINT_NAME, ORDINAL_POSITION");
    let before = "SELECT CONSTRAINT_NAME, COLUMN_NAME, REFERENCED_TABLE_SCHEMA, REFERENCED_TABLE_NAME, REFERENCED_COLUMN_NAME, ORDINAL_POSITION FROM information_schema.key_column_usage"@;
    let condition = " WHERE TABLE_SCHEMA = ? AND TABLE_NAME = ?"@;
    let behind = " AND REFERENCED_TABLE_NAME IS NOT NULL ORDER BY CONSTRAINT_NAME, ORDINAL_POSITION"@;
    assert(before.len() == 166 && condition.len() == 42 && behind.len() == 81);
    assert(MYSQL_FOREIGN_KEYS@ =~= before + condition + behind);
    assert(!before.contains('?'));
    assert(!behind.contains('?'));
    assert(selects_by(MYSQL_FOREIGN_KEYS@, before, condition, behind, '?'));
}

/// The indexes of a table of MySQL are asked for by its schema and its name.
pub proof fn lemma_mysql_indexes_are_found()
    ensures
        asks_by(MYSQL_INDEXES@, " WHERE TABLE_SCHEMA = ? AND TABLE_NAME = ?"@, '?'),
{
    reveal_strlit("SELECT INDEX_NAME, NON_UNIQUE, COLUMN_NAME, SEQ_IN_INDEX FROM information_schema.statistics WHERE TABLE_SCHEMA = ? AND TABLE_NAME = ? ORDER BY INDEX_NAME, SEQ_IN_INDEX");
    reveal_strlit("SELECT INDEX_NAME, NON_UNIQUE, COLUMN_NAME, SEQ_IN_INDEX FROM information_schema.statistics");
    reveal_strlit(" WHERE TABLE_SCHEMA = ? AND TABLE_NAME = ?");
    reveal_strlit(" ORDER BY INDEX_NAME, SEQ_IN_INDEX");
    let before = "SELECT INDEX_NAME, NON_UNIQUE, COLUMN_NAME, SEQ_IN_INDEX FROM information_schema.statistics"@;
    let condition = " WHERE TABLE_SCHEMA = ? AND TABLE_NAME = ?"@;
    let behind = " ORDER BY INDEX_NAME, SEQ_IN_INDEX"@;
    assert(before.len() == 91 && condition.len() == 42 && behind.len() == 34);
    assert(MYSQL_INDEXES@ =~= before + condition + behind);
    assert(!before.contains('?'));
    assert(!behind.contains('?'));
    assert(selects_by(MYSQL_INDEXES@, before, condition, behind, '?'));
}

/// The constraints of a table of MySQL are asked for by its schema and its name.
pub proof fn lemma_mysql_constraints_are_found()
    ensures
        asks_by(MYSQL_CONSTRAINTS@, " WHERE TC.TABLE_SCHEMA = ? AND TC.TABLE_NAME = ?"@, '?'),
{
    reveal_strlit("SELECT TC.CONSTRAINT_NAME, TC.CONSTRAINT_TYPE, KCU.COLUMN_NAME, KCU.ORDINAL_POSITION FROM information_schema.table_constraints AS TC INNER JOIN information_schema.key_column_usage AS KCU ON KCU.CONSTRAINT_SCHEMA = TC.CONSTRAINT_SCHEMA AND KCU.TABLE_SCHEMA = TC.TABLE_SCHEMA AND KCU.TABLE_NAME = TC.TABLE_NAME AND KCU.CONSTRAINT_NAME = TC.CONSTRAINT_NAME WHERE TC.TABLE_SCHEMA = ? AND TC.TABLE_NAME = ? AND TC.CONSTRAINT_TYPE IN ('PRIMARY KEY', 'UNIQUE') ORDER BY TC.CONSTRAINT_TYPE, TC.CONSTRAINT_NAME, KCU.ORDINAL_POSITION");
    reveal_strlit("SELECT TC.CONSTRAINT_NAME, TC.CONSTRAINT_TYPE, KCU.COLUMN_NAME, KCU.ORDINAL_POSITION FROM information_schema.table_constraints AS TC INNER JOIN information_schema.key_column_usage AS KCU ON KCU.CONSTRAINT_SCHEMA = TC.CONSTRAINT_SCHEMA AND KCU.TABLE_SCHEMA = TC.TABLE_SCHEMA AND KCU.TABLE_NAME = TC.TABLE_NAME AND KCU.CONSTRAINT_NAME = TC.CONSTRAINT_NAME");
    reveal_strlit(" WHERE TC.TABLE_SCHEMA = ? AND TC.TABLE_NAME = ?");
    reveal_strlit(" AND TC.CONSTRAINT_TYPE IN ('PRIMARY KEY', 'UNIQUE') ORDER BY TC.CONSTRAINT_TYPE, TC.CONSTRAINT_NAME, KCU.ORDINAL_POSITION");
    let before = "SELECT TC.CONSTRAINT_NAME, TC.CONSTRAINT_TYPE, KCU.COLUMN_NAME, KCU.ORDINAL_POSITION FROM information_schema.table_constraints AS TC INNER JOIN information_schema.key_column_usage AS KCU ON KCU.CONSTRAINT_SCHEMA = TC.CONSTRAINT_SCHEMA AND KCU.TABLE_SCHEMA = TC.TABLE_SCHEMA AND KCU.TABLE_NAME = TC.TABLE_NAME AND KCU.CONSTRAINT_NAME = TC.CONSTRAINT_NAME"@;
    let condition = " WHERE TC.TABLE_SCHEMA = ? AND TC.TABLE_NAME = ?"@;
    let behind = " AND TC.CONSTRAINT_TYPE IN ('PRIMARY KEY', 'UNIQUE') ORDER BY TC.CONSTRAINT_TYPE, TC.CONSTRAINT_NAME, KCU.ORDINAL_POSITION"@;
    assert(before.len() == 353 && condition.len() == 48 && behind.len() == 122);
    assert(MYSQL_CONSTRAINTS@ =~= before + condition + behind);
    assert(!before.contains('?'));
    assert(!behind.contains('?'));
    assert(selects_by(MYSQL_CONSTRAINTS@, before, condition, behind, '?'));
}

/// The columns of a table of PostgreSQL are asked for by its schema and its name.
pub proof fn lemma_postgres_columns_are_found()
    ensures
        asks_by(POSTGRES_COLUMNS@, " WHERE table_schema = $1 AND table_name = $2"@, '$'),
{
    reveal_strlit("SELECT column_name, data_type, is_nullable, ordinal_position::bigint FROM information_schema.columns WHERE table_schema = $1 AND table_name = $2 ORDER BY ordinal_position");
    reveal_strlit("SELECT column_name, data_type, is_nullable, ordinal_position::bigint FROM information_schema.columns");
    reveal_strlit(" WHERE table_schema = $1 AND table_name = $2");
    reveal_strlit(" ORDER BY ordinal_position");
    let before = "SELECT column_name, data_type, is_nullable, ordinal_position::bigint FROM information_schema.columns"@;
    let condition = " WHERE table_schema = $1 AND table_name = $2"@;
    let behind = " ORDER BY ordinal_position"@;
    assert(before.len() == 100 && condition.len() == 44 && behind.len() == 26);
    assert(POSTGRES_COLUMNS@ =~= before + condition + behind);
    assert(!before.contains('$'));
    assert(!behind.contains('$'));
    assert(selects_by(POSTGRES_COLUMNS@, before, condition, behind, '$'));
}

/// The columns of a table of Oracle are asked for by its owner and its name.
pub proof fn lemma_oracle_columns_are_found()
    ensures
        asks_by(ORACLE_COLUMNS@, " WHERE OWNER = :1 AND TABLE_NAME = :2"@, ':'),
{
    reveal_strlit("SELECT COLUMN_NAME, DATA_TYPE, NULLABLE, COLUMN_ID, DATA_LENGTH, DATA_PRECISION, DATA_SCALE FROM ALL_TAB_COLUMNS WHERE OWNER = :1 AND TABLE_NAME = :2 ORDER BY COLUMN_ID");
    reveal_strlit("SELECT COLUMN_NAME, DATA_TYPE, NULLABLE, COLUMN_ID, DATA_LENGTH, DATA_PRECISION, DATA_SCALE FROM ALL_TAB_COLUMNS");
    reveal_strlit(" WHERE OWNER = :1 AND TABLE_NAME = :2");
    reveal_strlit(" ORDER BY COLUMN_ID");
    let before = "SELECT COLUMN_NAME, DATA_TYPE, NULLABLE, COLUMN_ID, DATA_LENGTH, DATA_PRECISION, DATA_SCALE FROM ALL_TAB_COLUMNS"@;
    let condition = " WHERE OWNER = :1 AND TABLE_NAME = :2"@;
    let behind = " ORDER BY COLUMN_ID"@;
    assert(before.len() == 112 && condition.len() == 37 && behind.len() == 19);
    assert(ORACLE_COLUMNS@ =~= before + condition + behind);
    assert(!before.contains(':'));
    assert(!behind.contains(':'));
    assert(selects_by(ORACLE_COLUMNS@, before, condition, behind, ':'));
}

/// The columns of a table of SQL Server are asked for by its schema and its name.
pub proof fn lemma_sql_server_columns_are_found()
    ensures
        asks_by(SQL_SERVER_COLUMNS@, " WHERE C.TABLE_SCHEMA = @P1 AND C.TABLE_NAME = @P2"@, '@'),
{
    reveal_strlit("SELECT C.COLUMN_NAME, C.DATA_TYPE, C.IS_NULLABLE, C.ORDINAL_POSITION, CONVERT(nvarchar(max), CP.value) AS COLUMN_COMMENT, CONVERT(nvarchar(max), TP.value) AS TABLE_COMMENT FROM INFORMATION_SCHEMA.COLUMNS AS C LEFT JOIN sys.schemas AS S ON S.name = C.TABLE_SCHEMA LEFT JOIN sys.objects AS O ON O.schema_id = S.schema_id AND O.name = C.TABLE_NAME AND O.type IN ('U', 'V') LEFT JOIN sys.columns AS SC ON SC.object_id = O.object_id AND SC.name = C.COLUMN_NAME LEFT JOIN sys.extended_properties AS CP ON CP.class = 1 AND CP.major_id = O.object_id AND CP.minor_id = SC.column_id AND CP.name = N'MS_Description' LEFT JOIN sys.extended_properties AS TP ON TP.class = 1 AND TP.major_id = O.object_id AND TP.minor_id = 0 AND TP.name = N'MS_Description' WHERE C.TABLE_SCHEMA = @P1 AND C.TABLE_NAME = @P2 ORDER BY C.ORDINAL_POSITION");
    reveal_strlit("SELECT C.COLUMN_NAME, C.DATA_TYPE, C.IS_NULLABLE, C.ORDINAL_POSITION, CONVERT(nvarchar(max), CP.value) AS COLUMN_COMMENT, CONVERT(nvarchar(max), TP.value) AS TABLE_COMMENT FROM INFORMATION_SCHEMA.COLUMNS AS C LEFT JOIN sys.schemas AS S ON S.name = C.TABLE_SCHEMA LEFT JOIN sys.objects AS O ON O.schema_id = S.schema_id AND O.name = C.TABLE_NAME AND O.type IN ('U', 'V') LEFT JOIN sys.columns AS SC ON SC.object_id = O.object_id AND SC.name = C.COLUMN_NAME LEFT JOIN sys.extended_properties AS CP ON CP.class = 1 AND CP.major_id = O.object_id AND CP.minor_id = SC.column_id AND CP.name = N'MS_Description' LEFT JOIN sys.extended_properties AS TP ON TP.class = 1 AND TP.major_id = O.object_id AND TP.minor_id = 0 AND TP.name = N'MS_Description'");
    reveal_strlit(" WHERE C.TABLE_SCHEMA = @P1 AND C.TABLE_NAME = @P2");
    reveal_strlit(" ORDER BY C.ORDINAL_POSITION");
    let before = "SELECT C.COLUMN_NAME, C.DATA_TYPE, C.IS_NULLABLE, C.ORDINAL_POSITION, CONVERT(nvarchar(max), CP.value) AS COLUMN_COMMENT, CONVERT(nvarchar(max), TP.value) AS TABLE_COMMENT FROM INFORMATION_SCHEMA.COLUMNS AS C LEFT JOIN sys.schemas AS S ON S.name = C.TABLE_SCHEMA LEFT JOIN sys.objects AS O ON O.schema_id = S.schema_id AND O.name = C.TABLE_NAME AND O.type IN ('U', 'V') LEFT JOIN sys.columns AS SC ON SC.object_id = O.object_id AND SC.name = C.COLUMN_NAME LEFT JOIN sys.extended_properties AS CP ON CP.class = 1 AND CP.major_id = O.object_id AND CP.minor_id = SC.column_id AND CP.name = N'MS_Description' LEFT JOIN sys.extended_properties AS TP ON TP.class = 1 AND TP.major_id = O.object_id AND TP.minor_id = 0 AND TP.name = N'MS_Description'"@;
    let condition = " WHERE C.TABLE_SCHEMA = @P1 AND C.TABLE_NAME = @P2"@;
    let behind = " ORDER BY C.ORDINAL_POSITION"@;
    assert(before.len() == 742 && condition.len() == 50 && behind.len() == 28);
    assert(SQL_SERVER_COLUMNS@ =~= before + condition + behind);
    assert(!before.contains('@'));
    assert(!behind.contains('@'));
    assert(selects_by(SQL_SERVER_COLUMNS@, before, condition, behind, '@'));
}

/// The indexes of a table of SQL Server are asked for by its schema and its name.
pub proof fn lemma_sql_server_indexes_are_found()
    ensures
        asks_by(SQL_SERVER_INDEXES@, " WHERE S.name = @P1 AND O.name = @P2"@, '@'),
{
    reveal_strlit("SELECT I.name, C.name, CAST(CASE WHEN IC.key_ordinal > 0 THEN IC.key_ordinal ELSE IC.index_column_id END AS int) AS ORDINAL, I.is_unique FROM sys.indexes AS I INNER JOIN sys.objects AS O ON O.object_id = I.object_id INNER JOIN sys.schemas AS S ON S.schema_id = O.schema_id INNER JOIN sys.index_columns AS IC ON IC.object_id = I.object_id AND IC.index_id = I.index_id AND (IC.is_included_column = 0 OR I.type IN (5, 6)) INNER JOIN sys.columns AS C ON C.object_id = IC.object_id AND C.column_id = IC.column_id WHERE S.name = @P1 AND O.name = @P2 AND I.index_id > 0 AND I.is_hypothetical = 0 ORDER BY I.name, ORDINAL");
    reveal_strlit("SELECT I.name, C.name, CAST(CASE WHEN IC.key_ordinal > 0 THEN IC.key_ordinal ELSE IC.index_column_id END AS int) AS ORDINAL, I.is_unique FROM sys.indexes AS I INNER JOIN sys.objects AS O ON O.object_id = I.object_id INNER JOIN sys.schemas AS S ON S.schema_id = O.schema_id INNER JOIN sys.index_columns AS IC ON IC.object_id = I.object_id AND IC.index_id = I.index_id AND (IC.is_included_column = 0 OR I.type IN (5, 6)) INNER JOIN sys.columns AS C ON C.object_id = IC.object_id AND C.column_id = IC.column_id");
    reveal_strlit(" WHERE S.name = @P1 AND O.name = @P2");
    reveal_strlit(" AND I.index_id > 0 AND I.is_hypothetical = 0 ORDER BY I.name, ORDINAL");
    let before = "SELECT I.name, C.name, CAST(CASE WHEN IC.key_ordinal > 0 THEN IC.key_ordinal ELSE IC.index_column_id END AS int) AS ORDINAL, I.is_unique FROM sys.indexes AS I INNER JOIN sys.objects AS O ON O.object_id = I.object_id INNER JOIN sys.schemas AS S ON S.schema_id = O.schema_id INNER JOIN sys.index_columns AS IC ON IC.object_id = I.object_id AND IC.index_id = I.index_id AND (IC.is_included_column = 0 OR I.type IN (5, 6)) INNER JOIN sys.columns AS C ON C.object_id = IC.object_id AND C.column_id = IC.column_id"@;
    let condition = " WHERE S.name = @P1 AND O.name = @P2"@;
    let behind = " AND I.index_id > 0 AND I.is_hypothetical = 0 ORDER BY I.name, ORDINAL"@;
    assert(before.len() == 507 && condition.len() == 36 && behind.len() == 70);
    assert(SQL_SERVER_INDEXES@ =~= before + condition + behind);
    assert(!before.contains('@'));
    assert(!behind.contains('@'));
    assert(selects_by(SQL_SERVER_INDEXES@, before, condition, behind, '@'));
}

/// The keys and constraints of a table of SQL Server are asked for by its schema and its name.
pub proof fn lemma_sql_server_constraints_are_found()
    ensures
        asks_by(SQL_SERVER_CONSTRAINTS@, " WHERE S.name = @P1 AND O.name = @P2 AND KC.type IN ('PK', 'UQ') UNION ALL SELECT CAST(N'FOREIGN_KEY' AS nvarchar(32)) AS CONSTRAINT_KIND, FK.name AS CONSTRAINT_NAME, PC.name AS COLUMN_NAME, FKC.constraint_column_id AS ORDINAL, RS.name AS REFERENCED_SCHEMA, RO.name AS REFERENCED_TABLE, RC.name AS REFERENCED_COLUMN FROM sys.foreign_keys AS FK INNER JOIN sys.foreign_key_columns AS FKC ON FKC.constraint_object_id = FK.object_id INNER JOIN sys.objects AS PO ON PO.object_id = FK.parent_object_id INNER JOIN sys.schemas AS PS ON PS.schema_id = PO.schema_id INNER JOIN sys.columns AS PC ON PC.object_id = FKC.parent_object_id AND PC.column_id = FKC.parent_column_id INNER JOIN sys.objects AS RO ON RO.object_id = FKC.referenced_object_id INNER JOIN sys.schemas AS RS ON RS.schema_id = RO.schema_id INNER JOIN sys.columns AS RC ON RC.object_id = FKC.referenced_object_id AND RC.column_id = FKC.referenced_column_id WHERE PS.name = @P1 AND PO.name = @P2"@, '@'),
{
    reveal_strlit("SELECT CONSTRAINT_KIND, CONSTRAINT_NAME, COLUMN_NAME, ORDINAL, REFERENCED_SCHEMA, REFERENCED_TABLE, REFERENCED_COLUMN FROM ( SELECT CAST(CASE KC.type WHEN 'PK' THEN N'PRIMARY_KEY' ELSE N'UNIQUE_CONSTRAINT' END AS nvarchar(32)) AS CONSTRAINT_KIND, KC.name AS CONSTRAINT_NAME, C.name AS COLUMN_NAME, CAST(CASE WHEN IC.key_ordinal > 0 THEN IC.key_ordinal ELSE IC.index_column_id END AS int) AS ORDINAL, CAST(NULL AS nvarchar(128)) AS REFERENCED_SCHEMA, CAST(NULL AS nvarchar(128)) AS REFERENCED_TABLE, CAST(NULL AS nvarchar(128)) AS REFERENCED_COLUMN FROM sys.key_constraints AS KC INNER JOIN sys.objects AS O ON O.object_id = KC.parent_object_id INNER JOIN sys.schemas AS S ON S.schema_id = O.schema_id INNER JOIN sys.index_columns AS IC ON IC.object_id = KC.parent_object_id AND IC.index_id = KC.unique_index_id AND IC.is_included_column = 0 INNER JOIN sys.columns AS C ON C.object_id = IC.object_id AND C.column_id = IC.column_id WHERE S.name = @P1 AND O.name = @P2 AND KC.type IN ('PK', 'UQ') UNION ALL SELECT CAST(N'FOREIGN_KEY' AS nvarchar(32)) AS CONSTRAINT_KIND, FK.name AS CONSTRAINT_NAME, PC.name AS COLUMN_NAME, FKC.constraint_column_id AS ORDINAL, RS.name AS REFERENCED_SCHEMA, RO.name AS REFERENCED_TABLE, RC.name AS REFERENCED_COLUMN FROM sys.foreign_keys AS FK INNER JOIN sys.foreign_key_columns AS FKC ON FKC.constraint_object_id = FK.object_id INNER JOIN sys.objects AS PO ON PO.object_id = FK.parent_object_id INNER JOIN sys.schemas AS PS ON PS.schema_id = PO.schema_id INNER JOIN sys.columns AS PC ON PC.object_id = FKC.parent_object_id AND PC.column_id = FKC.parent_column_id INNER JOIN sys.objects AS RO ON RO.object_id = FKC.referenced_object_id INNER JOIN sys.schemas AS RS ON RS.schema_id = RO.schema_id INNER JOIN sys.columns AS RC ON RC.object_id = FKC.referenced_object_id AND RC.column_id = FKC.referenced_column_id WHERE PS.name = @P1 AND PO.name = @P2 ) AS RELATION_COLUMNS ORDER BY CONSTRAINT_KIND, CONSTRAINT_NAME, ORDINAL");
    reveal_strlit("SELECT CONSTRAINT_KIND, CONSTRAINT_NAME, COLUMN_NAME, ORDINAL, REFERENCED_SCHEMA, REFERENCED_TABLE, REFERENCED_COLUMN FROM ( SELECT CAST(CASE KC.type WHEN 'PK' THEN N'PRIMARY_KEY' ELSE N'UNIQUE_CONSTRAINT' END AS nvarchar(32)) AS CONSTRAINT_KIND, KC.name AS CONSTRAINT_NAME, C.name AS COLUMN_NAME, CAST(CASE WHEN IC.key_ordinal > 0 THEN IC.key_ordinal ELSE IC.index_column_id END AS int) AS ORDINAL, CAST(NULL AS nvarchar(128)) AS REFERENCED_SCHEMA, CAST(NULL AS nvarchar(128)) AS REFERENCED_TABLE, CAST(NULL AS nvarchar(128)) AS REFERENCED_COLUMN FROM sys.key_constraints AS KC INNER JOIN sys.objects AS O ON O.object_id = KC.parent_object_id INNER JOIN sys.schemas AS S ON S.schema_id = O.schema_id INNER JOIN sys.index_columns AS IC ON IC.object_id = KC.parent_object_id AND IC.index_id = KC.unique_index_id AND IC.is_included_column = 0 INNER JOIN sys.columns AS C ON C.object_id = IC.object_id AND C.column_id = IC.column_id");
    reveal_strlit(" WHERE S.name = @P1 AND O.name = @P2 AND KC.type IN ('PK', 'UQ') UNION ALL SELECT CAST(N'FOREIGN_KEY' AS nvarchar(32)) AS CONSTRAINT_KIND, FK.name AS CONSTRAINT_NAME, PC.name AS COLUMN_NAME, FKC.constraint_column_id AS ORDINAL, RS.name AS REFERENCED_SCHEMA, RO.name AS REFERENCED_TABLE, RC.name AS REFERENCED_COLUMN FROM sys.foreign_keys AS FK INNER JOIN sys.foreign_key_columns AS FKC ON FKC.constraint_object_id = FK.object_id INNER JOIN sys.objects AS PO ON PO.object_id = FK.parent_object_id INNER JOIN sys.schemas AS PS ON PS.schema_id = PO.schema_id INNER JOIN sys.columns AS PC ON PC.object_id = FKC.parent_object_id AND PC.column_id = FKC.parent_column_id INNER JOIN sys.objects AS RO ON RO.object_id = FKC.referenced_object_id INNER JOIN sys.schemas AS RS ON RS.schema_id = RO.schema_id INNER JOIN sys.columns AS RC ON RC.object_id = FKC.referenced_object_id AND RC.column_id = FKC.referenced_column_id WHERE PS.name = @P1 AND PO.name = @P2");
    reveal_strlit(" ) AS RELATION_COLUMNS ORDER BY CONSTRAINT_KIND, CONSTRAINT_NAME, ORDINAL");
    let before = "SELECT CONSTRAINT_KIND, CONSTRAINT_NAME, COLUMN_NAME, ORDINAL, REFERENCED_SCHEMA, REFERENCED_TABLE, REFERENCED_COLUMN FROM ( SELECT CAST(CASE KC.type WHEN 'PK' THEN N'PRIMARY_KEY' ELSE N'UNIQUE_CONSTRAINT' END AS nvarchar(32)) AS CONSTRAINT_KIND, KC.name AS CONSTRAINT_NAME, C.name AS COLUMN_NAME, CAST(CASE WHEN IC.key_ordinal > 0 THEN IC.key_ordinal ELSE IC.index_column_id END AS int) AS ORDINAL, CAST(NULL AS nvarchar(128)) AS REFERENCED_SCHEMA, CAST(NULL AS nvarchar(128)) AS REFERENCED_TABLE, CAST(NULL AS nvarchar(128)) AS REFERENCED_COLUMN FROM sys.key_constraints AS KC INNER JOIN sys.objects AS O ON O.object_id = KC.parent_object_id INNER JOIN sys.schemas AS S ON S.schema_id = O.schema_id INNER JOIN sys.index_columns AS IC ON IC.object_id = KC.parent_object_id AND IC.index_id = KC.unique_index_id AND IC.is_included_column = 0 INNER JOIN sys.columns AS C ON C.object_id = IC.object_id AND C.column_id = IC.column_id"@;
    let condition = " WHERE S.name = @P1 AND O.name = @P2 AND KC.type IN ('PK', 'UQ') UNION ALL SELECT CAST(N'FOREIGN_KEY' AS nvarchar(32)) AS CONSTRAINT_KIND, FK.name AS CONSTRAINT_NAME, PC.name AS COLUMN_NAME, FKC.constraint_column_id AS ORDINAL, RS.name AS REFERENCED_SCHEMA, RO.name AS REFERENCED_TABLE, RC.name AS REFERENCED_COLUMN FROM sys.foreign_keys AS FK INNER JOIN sys.foreign_key_columns AS FKC ON FKC.constraint_object_id = FK.object_id INNER JOIN sys.objects AS PO ON PO.object_id = FK.parent_object_id INNER JOIN sys.schemas AS PS ON PS.schema_id = PO.schema_id INNER JOIN sys.columns AS PC ON PC.object_id = FKC.parent_object_id AND PC.column_id = FKC.parent_column_id INNER JOIN sys.objects AS RO ON RO.object_id = FKC.referenced_object_id INNER JOIN sys.schemas AS RS ON RS.schema_id = RO.schema_id INNER JOIN sys.columns AS RC ON RC.object_id = FKC.referenced_object_id AND RC.column_id = FKC.referenced_column_id WHERE PS.name = @P1 AND PO.name = @P2"@;
    let behind = " ) AS RELATION_COLUMNS ORDER BY CONSTRAINT_KIND, CONSTRAINT_NAME, ORDINAL"@;
    assert(before.len() == 929 && condition.len() == 949 && behind.len() == 73);
    assert(SQL_SERVER_CONSTRAINTS@ =~= before + condition + behind);
    assert(!before.contains('@'));
    assert(!behind.contains('@'));
    assert(selects_by(SQL_SERVER_CONSTRAINTS@, before, condition, behind, '@'));
}

/// A search of PostgreSQL asks for the schema and the name of a table, where they are given, and
/// for its window.
pub proof fn lemma_postgres_searches_find_tables()
    ensures
        asks_by(POSTGRES_SEARCH@, " WHERE ($1::text IS NULL OR table_schema = $1) AND ($2::text IS NULL OR table_name ILIKE $2) ORDER BY table_schema, table_name LIMIT $3 OFFSET $4"@, '$'),
{
    reveal_strlit("SELECT table_schema, table_name, table_type FROM information_schema.tables WHERE ($1::text IS NULL OR table_schema = $1) AND ($2::text IS NULL OR table_name ILIKE $2) ORDER BY table_schema, table_name LIMIT $3 OFFSET $4");
    reveal_strlit("SELECT table_schema, table_name, table_type FROM information_schema.tables");
    reveal_strlit(" WHERE ($1::text IS NULL OR table_schema = $1) AND ($2::text IS NULL OR table_name ILIKE $2) ORDER BY table_schema, table_name LIMIT $3 OFFSET $4");
    let before = "SELECT table_schema, table_name, table_type FROM information_schema.tables"@;
    let condition = " WHERE ($1::text IS NULL OR table_schema = $1) AND ($2::text IS NULL OR table_name ILIKE $2) ORDER BY table_schema, table_name LIMIT $3 OFFSET $4"@;
    let behind = Seq::<char>::empty();
    assert(before.len() == 74 && condition.len() == 145 && behind.len() == 0);
    assert(POSTGRES_SEARCH@ =~= before + condition + behind);
    assert(!before.contains('$'));
    assert(!behind.contains('$'));
    assert(selects_by(POSTGRES_SEARCH@, before, condition, behind, '$'));
}

/// A search of MySQL asks for the schema, and for the name of a table or of one of its columns,
/// where they are given, and for its window.
pub proof fn lemma_mysql_searches_find_tables()
    ensures
        asks_by(MYSQL_SEARCH@, " WHERE (? IS NULL OR T.TABLE_SCHEMA = ?) AND (? IS NULL OR T.TABLE_NAME LIKE ? OR EXISTS (SELECT 1 FROM information_schema.columns AS C WHERE C.TABLE_SCHEMA = T.TABLE_SCHEMA AND C.TABLE_NAME = T.TABLE_NAME AND C.COLUMN_NAME LIKE ?)) ORDER BY T.TABLE_SCHEMA, T.TABLE_NAME LIMIT ? OFFSET ?"@, '?'),
{
    reveal_strlit("SELECT T.TABLE_SCHEMA, T.TABLE_NAME, T.TABLE_TYPE FROM information_schema.tables AS T WHERE (? IS NULL OR T.TABLE_SCHEMA = ?) AND (? IS NULL OR T.TABLE_NAME LIKE ? OR EXISTS (SELECT 1 FROM information_schema.columns AS C WHERE C.TABLE_SCHEMA = T.TABLE_SCHEMA AND C.TABLE_NAME = T.TABLE_NAME AND C.COLUMN_NAME LIKE ?)) ORDER BY T.TABLE_SCHEMA, T.TABLE_NAME LIMIT ? OFFSET ?");
    reveal_strlit("SELECT T.TABLE_SCHEMA, T.TABLE_NAME, T.TABLE_TYPE FROM information_schema.tables AS T");
    reveal_strlit(" WHERE (? IS NULL OR T.TABLE_SCHEMA = ?) AND (? IS NULL OR T.TABLE_NAME LIKE ? OR EXISTS (SELECT 1 FROM information_schema.columns AS C WHERE C.TABLE_SCHEMA = T.TABLE_SCHEMA AND C.TABLE_NAME = T.TABLE_NAME AND C.COLUMN_NAME LIKE ?)) ORDER BY T.TABLE_SCHEMA, T.TABLE_NAME LIMIT ? OFFSET ?");
    let before = "SELECT T.TABLE_SCHEMA, T.TABLE_NAME, T.TABLE_TYPE FROM information_schema.tables AS T"@;
    let condition = " WHERE (? IS NULL OR T.TABLE_SCHEMA = ?) AND (? IS NULL OR T.TABLE_NAME LIKE ? OR EXISTS (SELECT 1 FROM information_schema.columns AS C WHERE C.TABLE_SCHEMA = T.TABLE_SCHEMA AND C.TABLE_NAME = T.TABLE_NAME AND C.COLUMN_NAME LIKE ?)) ORDER BY T.TABLE_SCHEMA, T.TABLE_NAME LIMIT ? OFFSET ?"@;
    let behind = Seq::<char>::empty();
    assert(before.len() == 85 && condition.len() == 287 && behind.len() == 0);
    assert(MYSQL_SEARCH@ =~= before + condition + behind);
    assert(!before.contains('?'));
    assert(!behind.contains('?'));
    assert(selects_by(MYSQL_SEARCH@, before, condition, behind, '?'));
}

/// A search of SQL Server asks for the schema, and for the name of a table or of one of its
/// columns, where they are given, and for its window.
pub proof fn lemma_sql_server_searches_find_tables()
    ensures
        asks_by(SQL_SERVER_SEARCH@, " WHERE (@P1 IS NULL OR T.TABLE_SCHEMA = @P1) AND (@P2 IS NULL OR T.TABLE_NAME LIKE @P2 OR EXISTS (SELECT 1 FROM INFORMATION_SCHEMA.COLUMNS AS C WHERE C.TABLE_SCHEMA = T.TABLE_SCHEMA AND C.TABLE_NAME = T.TABLE_NAME AND C.COLUMN_NAME LIKE @P2)) ORDER BY T.TABLE_SCHEMA, T.TABLE_NAME OFFSET @P3 ROWS FETCH NEXT @P4 ROWS ONLY"@, '@'),
{
    reveal_strlit("SELECT T.TABLE_SCHEMA, T.TABLE_NAME, T.TABLE_TYPE FROM INFORMATION_SCHEMA.TABLES AS T WHERE (@P1 IS NULL OR T.TABLE_SCHEMA = @P1) AND (@P2 IS NULL OR T.TABLE_NAME LIKE @P2 OR EXISTS (SELECT 1 FROM INFORMATION_SCHEMA.COLUMNS AS C WHERE C.TABLE_SCHEMA = T.TABLE_SCHEMA AND C.TABLE_NAME = T.TABLE_NAME AND C.COLUMN_NAME LIKE @P2)) ORDER BY T.TABLE_SCHEMA, T.TABLE_NAME OFFSET @P3 ROWS FETCH NEXT @P4 ROWS ONLY");
    reveal_strlit("SELECT T.TABLE_SCHEMA, T.TABLE_NAME, T.TABLE_TYPE FROM INFORMATION_SCHEMA.TABLES AS T");
    reveal_strlit(" WHERE (@P1 IS NULL OR T.TABLE_SCHEMA = @P1) AND (@P2 IS NULL OR T.TABLE_NAME LIKE @P2 OR EXISTS (SELECT 1 FROM INFORMATION_SCHEMA.COLUMNS AS C WHERE C.TABLE_SCHEMA = T.TABLE_SCHEMA AND C.TABLE_NAME = T.TABLE_NAME AND C.COLUMN_NAME LIKE @P2)) ORDER BY T.TABLE_SCHEMA, T.TABLE_NAME OFFSET @P3 ROWS FETCH NEXT @P4 ROWS ONLY");
    let before = "SELECT T.TABLE_SCHEMA, T.TABLE_NAME, T.TABLE_TYPE FROM INFORMATION_SCHEMA.TABLES AS T"@;
    let condition = " WHERE (@P1 IS NULL OR T.TABLE_SCHEMA = @P1) AND (@P2 IS NULL OR T.TABLE_NAME LIKE @P2 OR EXISTS (SELECT 1 FROM INFORMATION_SCHEMA.COLUMNS AS C WHERE C.TABLE_SCHEMA = T.TABLE_SCHEMA AND C.TABLE_NAME = T.TABLE_NAME AND C.COLUMN_NAME LIKE @P2)) ORDER BY T.TABLE_SCHEMA, T.TABLE_NAME OFFSET @P3 ROWS FETCH NEXT @P4 ROWS ONLY"@;
    let behind = Seq::<char>::empty();
    assert(before.len() == 85 && condition.len() == 321 && behind.len() == 0);
    assert(SQL_SERVER_SEARCH@ =~= before + condition + behind);
    assert(!before.contains('@'));
    assert(!behind.contains('@'));
    assert(selects_by(SQL_SERVER_SEARCH@, before, condition, behind, '@'));
}

} // verus!
