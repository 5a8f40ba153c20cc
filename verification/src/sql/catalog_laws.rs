//! What the catalog of a server is asked, and what its rows say of a table.
use crate::base_laws::{last_named, lemma_records_keep_the_last};
use crate::budget::smaller;
use crate::model::{
    CatalogFetch, CatalogQuery, ConnectionProfile, ConnectorContext, DescriptionModel, EntityModel,
    ErrorCategory, ErrorModel,
};
use crate::sql::catalog::{
    describe_sql, identity_sql, oracle_entities, page_statement_result, search_statement_result,
    table_query, tds_entities, window_result, MYSQL_COLUMNS, MYSQL_CONSTRAINTS, MYSQL_FOREIGN_KEYS,
    MYSQL_INDEXES, MYSQL_TABLE, ORACLE_COLUMNS, POSTGRES_COLUMNS, SQL_SERVER_COLUMNS,
    SQL_SERVER_CONSTRAINTS, SQL_SERVER_INDEXES,
};
use crate::sql::cursor::offset_result;
use crate::sql::grouping::{
    grouped, in_ordinal_order, keys_ascend, lemma_groups_ascend, lemma_groups_in_ordinal_order,
    placed, with_row, GroupModel, ItemModel, KeyModel,
};
use crate::sql::identifier::SqlFamily;
use crate::sql::metadata::{
    foreign_groups, foreign_value, index_value, metadata_record, named_value, text_array,
    ForeignKeyModel, IndexModel, MetadataModel, NamedModel,
};
use crate::sql::mysql_catalog::{
    constraint_rows, foreign_rows, index_rows, mysql_description, mysql_metadata, name_key,
    plain_item, table_entities, ConstraintColumnRow, ForeignKeyColumnRow, IndexColumnRow,
};
use crate::sql::oracle_values::{cell_text, number_cell, oracle_description, CatalogCell};
use crate::sql::plan::SqlProduct;
use crate::sql::plan_laws::dialect;
use crate::sql::postgres::pg_description;
use crate::sql::sql_server_catalog::{
    class_rows, constraint_entry, row_column, tds_description, tds_metadata, ConstraintClass,
    ConstraintModel, ConstraintRow, TdsConstraintColumn, TdsConstraintKind, TdsIndexColumn,
};
use crate::text::{decimal, lower, optional_text, upper};
use crate::value::{named, record_of, RecordModel, ValueModel};
use vstd::prelude::*;

verus! {

/// The window of a search begins where its cursor stands and holds what all of its limits admit.
pub proof fn lemma_searches_ask_for_their_window(fetch: CatalogFetch, cursor: Option<Seq<char>>)
    ensures
        match window_result(fetch, cursor) {
            Ok(window) => {
                &&& 0 < fetch.limit
                &&& window.limit <= fetch.limit
                &&& window.limit <= fetch.context_rows
                &&& window.limit <= fetch.policy_rows
                &&& window.limit == fetch.limit || window.limit == fetch.context_rows
                    || window.limit == fetch.policy_rows
                &&& offset_result(cursor) == Ok::<u64, ErrorModel>(window.offset)
            },
            Err(error) => fetch.limit == 0 || offset_result(cursor) is Err,
        },
{
}

/// The value that a text is bound as, or that stands for none.
pub open spec fn bound_text(text: Option<Seq<char>>) -> ValueModel {
    match text {
        Some(text) => ValueModel::String(text),
        None => ValueModel::Null,
    }
}

/// The pattern that finds a text anywhere.
pub open spec fn bound_pattern(text: Option<Seq<char>>) -> ValueModel {
    match text {
        Some(text) => ValueModel::String("%"@ + text + "%"@),
        None => ValueModel::Null,
    }
}

/// A search of the catalog binds the namespace that is asked for, the pattern that is asked for, and
/// its window, each where the statement of the dialect has its placeholder.
pub proof fn lemma_searches_bind_what_is_asked_for(
    product: SqlProduct,
    profile: ConnectionProfile,
    query: CatalogQuery,
    fetch: CatalogFetch,
)
    ensures
        search_statement_result(product, profile, query, fetch) matches Ok(built) ==> (
        window_result(fetch, optional_text(query.cursor)) matches Ok(window) && {
            let namespace = optional_text(query.namespace);
            let pattern = optional_text(query.pattern);
            let bound = built.parameters;
            match dialect(product) {
                SqlFamily::MySql => {
                    let asked = if namespace is Some {
                        namespace
                    } else {
                        optional_text(profile.database)
                    };
                    &&& bound.len() == 7
                    &&& bound[0] == bound_text(asked)
                    &&& bound[1] == bound_text(asked)
                    &&& bound[2] == bound_pattern(pattern)
                    &&& bound[3] == bound_pattern(pattern)
                    &&& bound[4] == bound_pattern(pattern)
                    &&& bound[5] == ValueModel::UInt64(window.limit as u64)
                    &&& bound[6] == ValueModel::UInt64(window.offset)
                },
                SqlFamily::Oracle => {
                    let owner = if namespace is Some {
                        " AND OWNER = :1"@
                    } else {
                        Seq::empty()
                    };
                    let name = if pattern is None {
                        Seq::empty()
                    } else if namespace is Some {
                        " AND OBJECT_NAME LIKE :"@ + decimal(2)
                    } else {
                        " AND OBJECT_NAME LIKE :"@ + decimal(1)
                    };
                    &&& namespace matches Some(text) ==> bound.len() > 0 && bound[0]
                        == ValueModel::String(upper(text))
                    &&& pattern matches Some(text) ==> bound.len() > 0 && bound.last()
                        == ValueModel::String("%"@ + upper(text) + "%"@)
                    &&& bound.len() == (if namespace is Some {
                        1int
                    } else {
                        0
                    }) + (if pattern is Some {
                        1int
                    } else {
                        0
                    })
                    &&& built.sql
                        == "SELECT OWNER, OBJECT_NAME, OBJECT_TYPE FROM ALL_OBJECTS WHERE OBJECT_TYPE IN ('TABLE', 'VIEW')"@
                        + owner + name + " ORDER BY OWNER, OBJECT_NAME OFFSET "@ + decimal(
                        window.offset as nat,
                    ) + " ROWS FETCH NEXT "@ + decimal(window.limit as nat) + " ROWS ONLY"@
                },
                SqlFamily::SqlServer => {
                    &&& bound.len() == 4
                    &&& bound[0] == bound_text(namespace)
                    &&& bound[1] == bound_pattern(pattern)
                    &&& bound[2] == ValueModel::UInt64(window.offset)
                    &&& bound[3] == ValueModel::UInt64(window.limit as u64)
                },
                _ => {
                    &&& bound.len() == 4
                    &&& bound[0] == bound_text(namespace)
                    &&& bound[1] == bound_pattern(pattern)
                    &&& bound[2] == ValueModel::Int64(window.limit as i64)
                    &&& bound[3] == ValueModel::Int64(window.offset as i64)
                    &&& window.offset <= i64::MAX
                },
            }
        }),
{
}

/// A question about a table binds its namespace and its name, in this order.
pub proof fn lemma_questions_bind_their_table(sql: Seq<char>, namespace: Seq<char>, table: Seq<char>)
    ensures
        ({
            let built = table_query(sql, namespace, table);
            &&& built.sql == sql
            &&& built.parameters.len() == 2
            &&& built.parameters[0] == ValueModel::String(namespace)
            &&& built.parameters[1] == ValueModel::String(table)
        }),
{
}

/// Whether an entity is a table or a view by its namespace, its name and its kind.
pub open spec fn is_table(
    entity: EntityModel,
    namespace: Seq<char>,
    name: Seq<char>,
    kind: Seq<char>,
) -> bool {
    &&& entity.id == namespace + "."@ + name
    &&& entity.namespace == Some(namespace)
    &&& entity.name == name
    &&& entity.kind == lower(kind)
    &&& entity.comment is None
}

/// Every row of a catalog is an entity of its own, in order.
pub proof fn lemma_rows_are_entities(rows: Seq<(String, String, String)>)
    ensures
        table_entities(rows).len() == rows.len(),
        forall|i: int|
            0 <= i < rows.len() ==> is_table(
                #[trigger] table_entities(rows)[i],
                rows[i].0@,
                rows[i].1@,
                rows[i].2@,
            ),
{
}

/// Whether a row of Oracle's catalog is an entity.
pub open spec fn is_oracle_table(
    entity: EntityModel,
    row: (CatalogCell, CatalogCell, CatalogCell),
) -> bool {
    (cell_text(row.0), cell_text(row.1), cell_text(row.2)) matches (
        Ok(namespace),
        Ok(name),
        Ok(kind),
    ) && is_table(entity, namespace, name, kind)
}

/// Every row of Oracle's catalog is an entity of its own, in order.
pub proof fn lemma_oracle_rows_are_entities(rows: Seq<(CatalogCell, CatalogCell, CatalogCell)>)
    ensures
        oracle_entities(rows) matches Ok(list) ==> list.len() == rows.len() && forall|i: int|
            0 <= i < rows.len() ==> is_oracle_table(#[trigger] list[i], rows[i]),
    decreases rows.len(),
{
    if rows.len() > 0 {
        let before = rows.drop_last();
        lemma_oracle_rows_are_entities(before);
        if let Ok(list) = oracle_entities(rows) {
            let shorter = oracle_entities(before)->Ok_0;
            assert forall|i: int| 0 <= i < rows.len() implies is_oracle_table(
                #[trigger] list[i],
                rows[i],
            ) by {
                if i < before.len() {
                    assert(list[i] == shorter[i]);
                    assert(before[i] == rows[i]);
                }
            }
        }
    }
}

/// Whether a row of SQL Server's catalog is an entity.
pub open spec fn is_tds_table(
    entity: EntityModel,
    row: (Option<String>, Option<String>, Option<String>),
) -> bool {
    row matches (Some(namespace), Some(name), Some(kind)) && is_table(
        entity,
        namespace@,
        name@,
        kind@,
    )
}

/// Every row of SQL Server's catalog is an entity of its own, in order.
pub proof fn lemma_tds_rows_are_entities(rows: Seq<(Option<String>, Option<String>, Option<String>)>)
    ensures
        tds_entities(rows) matches Ok(list) ==> list.len() == rows.len() && forall|i: int|
            0 <= i < rows.len() ==> is_tds_table(#[trigger] list[i], rows[i]),
    decreases rows.len(),
{
    if rows.len() > 0 {
        let before = rows.drop_last();
        lemma_tds_rows_are_entities(before);
        if let Ok(list) = tds_entities(rows) {
            let shorter = tds_entities(before)->Ok_0;
            assert forall|i: int| 0 <= i < rows.len() implies is_tds_table(
                #[trigger] list[i],
                rows[i],
            ) by {
                if i < before.len() {
                    assert(list[i] == shorter[i]);
                    assert(before[i] == rows[i]);
                }
            }
        }
    }
}

/// Whether a record says of a column what it is called, of which type it is, whether it may be null,
/// and where it stands.
pub open spec fn is_column(
    record: RecordModel,
    name: Seq<char>,
    kind: Seq<char>,
    nullable: bool,
    ordinal: ValueModel,
) -> bool {
    &&& named(record, "name"@) == Some(ValueModel::String(name))
    &&& named(record, "type"@) == Some(ValueModel::String(kind))
    &&& named(record, "nullable"@) == Some(ValueModel::Bool(nullable))
    &&& named(record, "ordinal"@) == Some(ordinal)
}

/// The names of what is said of a column are different texts.
proof fn lemma_column_names()
    ensures
        "name"@ != "type"@,
        "name"@ != "nullable"@,
        "name"@ != "ordinal"@,
        "name"@ != "comment"@,
        "name"@ != "length"@,
        "name"@ != "precision"@,
        "name"@ != "scale"@,
        "type"@ != "nullable"@,
        "type"@ != "ordinal"@,
        "type"@ != "comment"@,
        "type"@ != "length"@,
        "type"@ != "precision"@,
        "type"@ != "scale"@,
        "nullable"@ != "ordinal"@,
        "nullable"@ != "comment"@,
        "nullable"@ != "length"@,
        "nullable"@ != "precision"@,
        "nullable"@ != "scale"@,
        "ordinal"@ != "comment"@,
        "ordinal"@ != "length"@,
        "ordinal"@ != "precision"@,
        "ordinal"@ != "scale"@,
        "length"@ != "precision"@,
        "length"@ != "scale"@,
        "precision"@ != "scale"@,
{
    reveal_strlit("name");
    reveal_strlit("type");
    reveal_strlit("nullable");
    reveal_strlit("ordinal");
    reveal_strlit("comment");
    reveal_strlit("length");
    reveal_strlit("precision");
    reveal_strlit("scale");
    assert("name"@.len() == 4 && "type"@.len() == 4 && "nullable"@.len() == 8 && "ordinal"@.len() == 7
        && "comment"@.len() == 7 && "length"@.len() == 6 && "precision"@.len() == 9
        && "scale"@.len() == 5);
    assert("name"@[0] == 'n' && "type"@[0] == 't' && "ordinal"@[0] == 'o' && "comment"@[0] == 'c');
}

/// What is found behind further entries.
proof fn lemma_pushed_last(
    entries: Seq<(Seq<char>, ValueModel)>,
    entry: (Seq<char>, ValueModel),
    name: Seq<char>,
)
    ensures
        last_named(entries.push(entry), name) == if entry.0 == name {
            Some(entry.1)
        } else {
            last_named(entries, name)
        },
{
    assert(entries.push(entry).drop_last() =~= entries);
}

/// What is found in a record of four entries with different names.
proof fn lemma_four(
    one: (Seq<char>, ValueModel),
    two: (Seq<char>, ValueModel),
    three: (Seq<char>, ValueModel),
    four: (Seq<char>, ValueModel),
    name: Seq<char>,
)
    requires
        one.0 != two.0,
        one.0 != three.0,
        one.0 != four.0,
        two.0 != three.0,
        two.0 != four.0,
        three.0 != four.0,
    ensures
        last_named(seq![one].push(two).push(three).push(four), one.0) == Some(one.1),
        last_named(seq![one].push(two).push(three).push(four), two.0) == Some(two.1),
        last_named(seq![one].push(two).push(three).push(four), three.0) == Some(three.1),
        last_named(seq![one].push(two).push(three).push(four), four.0) == Some(four.1),
        name != one.0 && name != two.0 && name != three.0 && name != four.0 ==> last_named(
            seq![one].push(two).push(three).push(four),
            name,
        ) is None,
{
    let first = seq![one];
    assert(first.drop_last() =~= Seq::empty());
    let names = seq![one.0, two.0, three.0, four.0, name];
    assert forall|i: int| 0 <= i < 5 implies last_named(
        first.push(two).push(three).push(four),
        #[trigger] names[i],
    ) == if names[i] == four.0 {
        Some(four.1)
    } else if names[i] == three.0 {
        Some(three.1)
    } else if names[i] == two.0 {
        Some(two.1)
    } else if names[i] == one.0 {
        Some(one.1)
    } else {
        None
    } by {
        lemma_pushed_last(first.push(two).push(three), four, names[i]);
        lemma_pushed_last(first.push(two), three, names[i]);
        lemma_pushed_last(first, two, names[i]);
        assert(last_named(first.drop_last(), names[i]) is None);
    }
    assert(names[0] == one.0 && names[1] == two.0 && names[2] == three.0 && names[3] == four.0
        && names[4] == name);
}

/// What PostgreSQL says of a column is what its row says.
pub proof fn lemma_postgres_columns_are_described(row: (String, String, String, i64))
    ensures
        is_column(
            crate::sql::postgres::column_record(row),
            row.0@,
            row.1@,
            row.2@ == "YES"@,
            ValueModel::Int64(row.3),
        ),
{
    lemma_column_names();
    let one = ("name"@, ValueModel::String(row.0@));
    let two = ("type"@, ValueModel::String(row.1@));
    let three = ("nullable"@, ValueModel::Bool(row.2@ == "YES"@));
    let four = ("ordinal"@, ValueModel::Int64(row.3));
    lemma_four(one, two, three, four, one.0);
    let entries = seq![one].push(two).push(three).push(four);
    lemma_records_keep_the_last(entries, one.0);
    lemma_records_keep_the_last(entries, two.0);
    lemma_records_keep_the_last(entries, three.0);
    lemma_records_keep_the_last(entries, four.0);
}

/// What MySQL says of a column is what its row says; an empty comment is none.
pub proof fn lemma_mysql_columns_are_described(row: (String, String, String, u64, Option<String>))
    ensures
        is_column(
            crate::sql::mysql_catalog::column_record(row),
            row.0@,
            row.1@,
            row.2@ == "YES"@,
            ValueModel::UInt64(row.3),
        ),
        named(crate::sql::mysql_catalog::column_record(row), "comment"@) == Some(
            match row.4 {
                Some(comment) if comment@.len() > 0 => ValueModel::String(comment@),
                _ => ValueModel::Null,
            },
        ),
{
    lemma_column_names();
    let one = ("name"@, ValueModel::String(row.0@));
    let two = ("type"@, ValueModel::String(row.1@));
    let three = ("nullable"@, ValueModel::Bool(row.2@ == "YES"@));
    let four = ("ordinal"@, ValueModel::UInt64(row.3));
    lemma_four(one, two, three, four, "comment"@);
    let entries = seq![one].push(two).push(three).push(four);
    let comment = match row.4 {
        Some(comment) if comment@.len() > 0 => ValueModel::String(comment@),
        _ => ValueModel::Null,
    };
    lemma_pushed_last(entries, ("comment"@, comment), one.0);
    lemma_pushed_last(entries, ("comment"@, comment), two.0);
    lemma_pushed_last(entries, ("comment"@, comment), three.0);
    lemma_pushed_last(entries, ("comment"@, comment), four.0);
    lemma_pushed_last(entries, ("comment"@, comment), "comment"@);
    let all = entries.push(("comment"@, comment));
    lemma_records_keep_the_last(all, one.0);
    lemma_records_keep_the_last(all, two.0);
    lemma_records_keep_the_last(all, three.0);
    lemma_records_keep_the_last(all, four.0);
    lemma_records_keep_the_last(all, "comment"@);
    assert(crate::sql::mysql_catalog::column_record(row) == record_of(all));
}

/// What SQL Server says of a column is what its row says.
pub proof fn lemma_tds_columns_are_described(row: crate::sql::sql_server_catalog::ColumnRow)
    ensures
        crate::sql::sql_server_catalog::column_result(row) is Ok <==> row.name is Some
            && row.data_type is Some && row.nullable is Some && row.ordinal is Some,
        crate::sql::sql_server_catalog::column_result(row) matches Ok(record) ==> {
            &&& is_column(
                record,
                row.name->0@,
                row.data_type->0@,
                row.nullable->0@ == "YES"@,
                ValueModel::Int64(row.ordinal->0 as i64),
            )
            &&& named(record, "comment"@) == Some(bound_text(optional_text(row.comment)))
        },
{
    lemma_column_names();
    if let Ok(record) = crate::sql::sql_server_catalog::column_result(row) {
        let one = ("name"@, ValueModel::String(row.name->0@));
        let two = ("type"@, ValueModel::String(row.data_type->0@));
        let three = ("nullable"@, ValueModel::Bool(row.nullable->0@ == "YES"@));
        let four = ("ordinal"@, ValueModel::Int64(row.ordinal->0 as i64));
        lemma_four(one, two, three, four, "comment"@);
        let entries = seq![one].push(two).push(three).push(four);
        let comment = ("comment"@, bound_text(optional_text(row.comment)));
        lemma_pushed_last(entries, comment, one.0);
        lemma_pushed_last(entries, comment, two.0);
        lemma_pushed_last(entries, comment, three.0);
        lemma_pushed_last(entries, comment, four.0);
        lemma_pushed_last(entries, comment, comment.0);
        let all = entries.push(comment);
        lemma_records_keep_the_last(all, one.0);
        lemma_records_keep_the_last(all, two.0);
        lemma_records_keep_the_last(all, three.0);
        lemma_records_keep_the_last(all, four.0);
        lemma_records_keep_the_last(all, comment.0);
        assert(record == record_of(all));
    }
}

/// What Oracle says of a column is what its row says, with its length, precision and scale.
pub proof fn lemma_oracle_columns_are_described(row: crate::sql::oracle_values::ColumnRow)
    ensures
        crate::sql::oracle_values::column_result(row) matches Ok(record) ==> {
            &&& is_column(
                record,
                cell_text(row.name)->Ok_0,
                cell_text(row.data_type)->Ok_0,
                cell_text(row.nullable)->Ok_0 == "Y"@,
                number_cell(row.ordinal)->Ok_0,
            )
            &&& named(record, "length"@) == Some(number_cell(row.length)->Ok_0)
            &&& named(record, "precision"@) == Some(number_cell(row.precision)->Ok_0)
            &&& named(record, "scale"@) == Some(number_cell(row.scale)->Ok_0)
        },
{
    lemma_column_names();
    if let Ok(record) = crate::sql::oracle_values::column_result(row) {
        let one = ("name"@, ValueModel::String(cell_text(row.name)->Ok_0));
        let two = ("type"@, ValueModel::String(cell_text(row.data_type)->Ok_0));
        let three = ("nullable"@, ValueModel::Bool(cell_text(row.nullable)->Ok_0 == "Y"@));
        let four = ("ordinal"@, number_cell(row.ordinal)->Ok_0);
        let five = ("length"@, number_cell(row.length)->Ok_0);
        let six = ("precision"@, number_cell(row.precision)->Ok_0);
        let seven = ("scale"@, number_cell(row.scale)->Ok_0);
        lemma_four(one, two, three, four, one.0);
        let entries = seq![one].push(two).push(three).push(four);
        let all = entries.push(five).push(six).push(seven);
        assert(record == record_of(all));
        let names = seq![one.0, two.0, three.0, four.0, five.0, six.0, seven.0];
        assert forall|i: int| 0 <= i < 7 implies named(record, #[trigger] names[i]) == last_named(
            all,
            names[i],
        ) && last_named(all, names[i]) == if names[i] == seven.0 {
            Some(seven.1)
        } else if names[i] == six.0 {
            Some(six.1)
        } else if names[i] == five.0 {
            Some(five.1)
        } else {
            last_named(entries, names[i])
        } by {
            lemma_records_keep_the_last(all, names[i]);
            lemma_pushed_last(entries.push(five).push(six), seven, names[i]);
            lemma_pushed_last(entries.push(five), six, names[i]);
            lemma_pushed_last(entries, five, names[i]);
        }
        assert(names[0] == one.0 && names[1] == two.0 && names[2] == three.0 && names[3] == four.0
            && names[4] == five.0 && names[5] == six.0 && names[6] == seven.0);
    }
}

/// Whether a description is that of a table, with a field for each of its columns.
pub open spec fn describes(
    description: DescriptionModel,
    namespace: Seq<char>,
    table: Seq<char>,
    columns: nat,
) -> bool {
    &&& description.entity.id == namespace + "."@ + table
    &&& description.entity.namespace == Some(namespace)
    &&& description.entity.name == table
    &&& description.fields.len() == columns
    &&& !description.truncated
}

/// A table is described by all of its columns, in order; one that is not in the catalog is not found.
pub proof fn lemma_tables_are_described(
    namespace: Seq<char>,
    table: Seq<char>,
    pg: Seq<(String, String, String, i64)>,
    kind: Option<(String, Option<String>)>,
    mysql: Seq<(String, String, String, u64, Option<String>)>,
    metadata: MetadataModel,
)
    ensures
        match pg_description(namespace, table, pg) {
            Ok(description) => pg.len() > 0 && describes(description, namespace, table, pg.len())
                && description.entity.kind == "table_or_view"@ && forall|i: int|
                0 <= i < pg.len() ==> #[trigger] description.fields[i]
                    == crate::sql::postgres::column_record(pg[i]),
            Err(error) => pg.len() == 0 && error.category == ErrorCategory::NotFound,
        },
        match mysql_description(namespace, table, kind, mysql, metadata) {
            Ok(description) => kind is Some && describes(
                description,
                namespace,
                table,
                mysql.len(),
            ) && description.entity.kind == lower((kind->0).0@) && description.metadata
                == metadata_record(metadata) && (description.entity.comment is Some <==> (kind->0).1
                is Some && ((kind->0).1)->0@.len() > 0) && (description.entity.comment is Some
                ==> description.entity.comment->0 == ((kind->0).1)->0@) && forall|i: int|
                0 <= i < mysql.len() ==> #[trigger] description.fields[i]
                    == crate::sql::mysql_catalog::column_record(mysql[i]),
            Err(error) => kind is None && error.category == ErrorCategory::NotFound,
        },
{
}

/// The tables of Oracle and of SQL Server are described by all of their columns, in order.
pub proof fn lemma_further_tables_are_described(
    namespace: Seq<char>,
    table: Seq<char>,
    oracle: Seq<crate::sql::oracle_values::ColumnRow>,
    tds: Seq<crate::sql::sql_server_catalog::ColumnRow>,
    metadata: MetadataModel,
)
    ensures
        oracle.len() == 0 ==> (oracle_description(namespace, table, oracle) matches Err(error)
            && error.category == ErrorCategory::NotFound),
        oracle_description(namespace, table, oracle) matches Ok(description) ==> describes(
            description,
            namespace,
            table,
            oracle.len(),
        ) && forall|i: int|
            0 <= i < oracle.len() ==> crate::sql::oracle_values::column_result(oracle[i]) == Ok::<
                RecordModel,
                ErrorModel,
            >(#[trigger] description.fields[i]),
        tds.len() == 0 ==> (tds_description(namespace, table, tds, metadata) matches Err(error)
            && error.category == ErrorCategory::NotFound),
        tds_description(namespace, table, tds, metadata) matches Ok(description) ==> describes(
            description,
            namespace,
            table,
            tds.len(),
        ) && description.entity.comment == optional_text(tds[0].table_comment)
            && description.metadata == metadata_record(metadata) && forall|i: int|
            0 <= i < tds.len() ==> crate::sql::sql_server_catalog::column_result(tds[i]) == Ok::<
                RecordModel,
                ErrorModel,
            >(#[trigger] description.fields[i]),
{
    lemma_oracle_columns(oracle);
    lemma_tds_columns(tds);
}

proof fn lemma_oracle_columns(rows: Seq<crate::sql::oracle_values::ColumnRow>)
    ensures
        crate::sql::oracle_values::columns_result(rows) matches Ok(fields) ==> fields.len()
            == rows.len() && forall|i: int|
            0 <= i < rows.len() ==> crate::sql::oracle_values::column_result(rows[i]) == Ok::<
                RecordModel,
                ErrorModel,
            >(#[trigger] fields[i]),
    decreases rows.len(),
{
    if rows.len() > 0 {
        let before = rows.drop_last();
        lemma_oracle_columns(before);
        if let Ok(fields) = crate::sql::oracle_values::columns_result(rows) {
            let shorter = crate::sql::oracle_values::columns_result(before)->Ok_0;
            assert forall|i: int|
                0 <= i < rows.len() implies crate::sql::oracle_values::column_result(rows[i])
                == Ok::<RecordModel, ErrorModel>(#[trigger] fields[i]) by {
                if i < before.len() {
                    assert(fields[i] == shorter[i]);
                    assert(before[i] == rows[i]);
                }
            }
        }
    }
}

proof fn lemma_tds_columns(rows: Seq<crate::sql::sql_server_catalog::ColumnRow>)
    ensures
        crate::sql::sql_server_catalog::columns_result(rows) matches Ok(fields) ==> fields.len()
            == rows.len() && forall|i: int|
            0 <= i < rows.len() ==> crate::sql::sql_server_catalog::column_result(rows[i]) == Ok::<
                RecordModel,
                ErrorModel,
            >(#[trigger] fields[i]),
    decreases rows.len(),
{
    if rows.len() > 0 {
        let before = rows.drop_last();
        lemma_tds_columns(before);
        if let Ok(fields) = crate::sql::sql_server_catalog::columns_result(rows) {
            let shorter = crate::sql::sql_server_catalog::columns_result(before)->Ok_0;
            assert forall|i: int|
                0 <= i < rows.len() implies crate::sql::sql_server_catalog::column_result(rows[i])
                == Ok::<RecordModel, ErrorModel>(#[trigger] fields[i]) by {
                if i < before.len() {
                    assert(fields[i] == shorter[i]);
                    assert(before[i] == rows[i]);
                }
            }
        }
    }
}

/// Whether some groups hold an item under a key.
pub open spec fn holds(list: Seq<GroupModel>, key: KeyModel, item: ItemModel) -> bool
    decreases list.len(),
{
    list.len() > 0 && ((list[0].key == key && list[0].items.contains(item)) || holds(
        list.subrange(1, list.len() as int),
        key,
        item,
    ))
}

/// Whether a group stands at a place and holds an item under a key.
pub open spec fn holds_at(
    list: Seq<GroupModel>,
    at: int,
    key: KeyModel,
    item: ItemModel,
) -> bool {
    0 <= at < list.len() && list[at].key == key && list[at].items.contains(item)
}

proof fn lemma_held_at(list: Seq<GroupModel>, key: KeyModel, item: ItemModel)
    ensures
        holds(list, key, item) <==> exists|at: int| holds_at(list, at, key, item),
    decreases list.len(),
{
    if list.len() > 0 {
        let rest = list.subrange(1, list.len() as int);
        lemma_held_at(rest, key, item);
        if holds(list, key, item) {
            if list[0].key == key && list[0].items.contains(item) {
                assert(holds_at(list, 0, key, item));
            } else {
                let at = choose|at: int| holds_at(rest, at, key, item);
                assert(rest[at] == list[at + 1]);
                assert(holds_at(list, at + 1, key, item));
            }
        }
        if exists|at: int| holds_at(list, at, key, item) {
            let at = choose|at: int| holds_at(list, at, key, item);
            if at > 0 {
                assert(rest[at - 1] == list[at]);
                assert(holds_at(rest, at - 1, key, item));
            }
        }
    }
}

proof fn lemma_placed_contains(list: Seq<ItemModel>, item: ItemModel, other: ItemModel)
    ensures
        placed(list, item).contains(other) <==> list.contains(other) || other == item,
    decreases list.len(),
{
    let all = placed(list, item);
    if list.len() == 0 {
        assert(all[0] == item);
    } else if list.last().ordinal <= item.ordinal {
        crate::http::sending::lemma_pushed(list, item);
        if all.contains(other) && other != item {
            let i = choose|i: int| 0 <= i < all.len() && all[i] == other;
            assert(list[i] == other);
        }
    } else {
        let shorter = list.drop_last();
        lemma_placed_contains(shorter, item, other);
        crate::http::sending::lemma_pushed(placed(shorter, item), list.last());
        if all.contains(other) && other != list.last() {
            let i = choose|i: int| 0 <= i < all.len() && all[i] == other;
            assert(placed(shorter, item)[i] == other);
        }
        if shorter.contains(other) {
            let i = choose|i: int| 0 <= i < shorter.len() && shorter[i] == other;
            assert(list[i] == other);
        }
        if list.contains(other) && other != list.last() {
            let i = choose|i: int| 0 <= i < list.len() && list[i] == other;
            assert(shorter[i] == other);
        }
        assert(list[list.len() - 1] == list.last());
    }
}

proof fn lemma_row_is_held(
    list: Seq<GroupModel>,
    key: KeyModel,
    item: Option<ItemModel>,
    other_key: KeyModel,
    other: ItemModel,
)
    ensures
        holds(with_row(list, key, item), other_key, other) <==> holds(list, other_key, other) || (
        other_key == key && item == Some(other)),
    decreases list.len(),
{
    let all = with_row(list, key, item);
    let none = Seq::<ItemModel>::empty();
    if let Some(found) = item {
        lemma_placed_contains(none, found, other);
        if list.len() > 0 {
            lemma_placed_contains(list[0].items, found, other);
        }
    }
    assert(!none.contains(other));
    let tail = all.subrange(1, all.len() as int);
    if list.len() == 0 {
        assert(tail =~= Seq::empty());
        assert(!holds(tail, other_key, other));
    } else {
        let rest = list.subrange(1, list.len() as int);
        if list[0].key == key {
            assert(tail =~= rest);
        } else if crate::sql::grouping::key_before(key, list[0].key) {
            assert(tail =~= list);
        } else {
            lemma_row_is_held(rest, key, item, other_key, other);
            assert(tail =~= with_row(rest, key, item));
        }
    }
}

/// Grouping keeps every row under its key and adds nothing.
pub proof fn lemma_groups_hold_their_rows(
    rows: Seq<(KeyModel, Option<ItemModel>)>,
    key: KeyModel,
    item: ItemModel,
)
    ensures
        holds(grouped(rows), key, item) <==> exists|i: int|
            0 <= i < rows.len() && #[trigger] rows[i] == (key, Some(item)),
    decreases rows.len(),
{
    if rows.len() > 0 {
        let before = rows.drop_last();
        lemma_groups_hold_their_rows(before, key, item);
        lemma_row_is_held(grouped(before), rows.last().0, rows.last().1, key, item);
        if holds(grouped(before), key, item) {
            let i = choose|i: int| 0 <= i < before.len() && #[trigger] before[i] == (key, Some(item));
            assert(rows[i] == (key, Some(item)));
        }
        if rows.last().0 == key && rows.last().1 == Some(item) {
            assert(rows[rows.len() - 1] == (key, Some(item)));
        }
        if exists|i: int| 0 <= i < rows.len() && #[trigger] rows[i] == (key, Some(item)) {
            let i = choose|i: int| 0 <= i < rows.len() && #[trigger] rows[i] == (key, Some(item));
            if i < before.len() {
                assert(before[i] == (key, Some(item)));
            }
        }
    }
}

/// Whether a foreign key has a name and leads from a column to a column of another table.
pub open spec fn leads(
    key: ForeignKeyModel,
    name: Seq<char>,
    column: Seq<char>,
    entity: Seq<char>,
    referenced: Seq<char>,
) -> bool {
    &&& key.name == name
    &&& key.referenced_entity == entity
    &&& key.columns.len() == key.referenced_columns.len()
    &&& exists|k: int|
        0 <= k < key.columns.len() && #[trigger] key.columns[k] == column
            && key.referenced_columns[k] == referenced
}

/// Every column of a foreign key of MySQL leads to the column that its row names.
pub proof fn lemma_mysql_foreign_keys_lead_where_they_say(
    constraints: Seq<ConstraintColumnRow>,
    foreign: Seq<ForeignKeyColumnRow>,
    indexes: Seq<IndexColumnRow>,
    at: int,
)
    requires
        0 <= at < foreign.len(),
    ensures
        exists|i: int|
            0 <= i < mysql_metadata(constraints, foreign, indexes).foreign_keys.len() && leads(
                #[trigger] mysql_metadata(constraints, foreign, indexes).foreign_keys[i],
                foreign[at].0@,
                foreign[at].1@,
                foreign[at].2@ + "."@ + foreign[at].3@,
                foreign[at].4@,
            ),
{
    let row = foreign[at];
    let key = KeyModel { parts: seq![row.0@].push(row.2@).push(row.3@), flag: false };
    let item = ItemModel { ordinal: row.5 as int, column: row.1@, referenced: row.4@ };
    let rows = foreign_rows(foreign);
    lemma_foreign_row(foreign, at);
    assert(rows[at] == (key, Some(item)));
    lemma_groups_hold_their_rows(rows, key, item);
    let list = grouped(rows);
    lemma_held_at(list, key, item);
    let i = choose|i: int| holds_at(list, i, key, item);
    let k = choose|k: int| 0 <= k < list[i].items.len() && list[i].items[k] == item;
    let found = foreign_groups(list)[i];
    assert(found.columns[k] == row.1@);
    assert(found.referenced_columns[k] == row.4@);
    assert(leads(
        mysql_metadata(constraints, foreign, indexes).foreign_keys[i],
        row.0@,
        row.1@,
        row.2@ + "."@ + row.3@,
        row.4@,
    ));
}

proof fn lemma_foreign_row(foreign: Seq<ForeignKeyColumnRow>, at: int)
    requires
        0 <= at < foreign.len(),
    ensures
        foreign_rows(foreign).len() == foreign.len(),
        foreign_rows(foreign)[at] == (
            KeyModel {
                parts: seq![foreign[at].0@].push(foreign[at].2@).push(foreign[at].3@),
                flag: false,
            },
            Some(
                ItemModel {
                    ordinal: foreign[at].5 as int,
                    column: foreign[at].1@,
                    referenced: foreign[at].4@,
                },
            ),
        ),
    decreases foreign.len(),
{
    let before = foreign.drop_last();
    if before.len() > 0 {
        lemma_foreign_row(
            before,
            if at < before.len() {
                at
            } else {
                0
            },
        );
    } else {
        assert(foreign_rows(before).len() == 0);
    }
    if at < before.len() {
        assert(before[at] == foreign[at]);
    }
}

/// Whether a list of constraints has one of a name with a column.
pub open spec fn constrains(list: Seq<NamedModel>, name: Seq<char>, column: Seq<char>) -> bool {
    exists|i: int|
        0 <= i < list.len() && (#[trigger] list[i]).name == name && list[i].columns.contains(column)
}

/// The columns of a unique constraint of MySQL are those that its rows name; the rows of the primary
/// key are not among them.
pub proof fn lemma_mysql_constraints_hold_their_columns(
    constraints: Seq<ConstraintColumnRow>,
    foreign: Seq<ForeignKeyColumnRow>,
    indexes: Seq<IndexColumnRow>,
    at: int,
)
    requires
        0 <= at < constraints.len(),
    ensures
        constraints[at].1@ != "PRIMARY KEY"@ ==> constrains(
            mysql_metadata(constraints, foreign, indexes).unique_constraints,
            constraints[at].0@,
            constraints[at].2@,
        ),
        constraints[at].1@ == "PRIMARY KEY"@ ==> mysql_metadata(
            constraints,
            foreign,
            indexes,
        ).primary_key is Some,
        (forall|i: int| 0 <= i < constraints.len() ==> (#[trigger] constraints[i]).1@ != "PRIMARY KEY"@)
            ==> mysql_metadata(constraints, foreign, indexes).primary_key is None,
{
    let row = constraints[at];
    let primary = row.1@ == "PRIMARY KEY"@;
    let key = name_key(row.0@);
    let item = plain_item(row.3 as int, row.2@);
    let rows = constraint_rows(constraints, primary);
    lemma_constraint_row(constraints, primary, at);
    lemma_groups_hold_their_rows(rows, key, item);
    let list = grouped(rows);
    lemma_held_at(list, key, item);
    let i = choose|i: int| holds_at(list, i, key, item);
    let k = choose|k: int| 0 <= k < list[i].items.len() && list[i].items[k] == item;
    if !primary {
        let unique = mysql_metadata(constraints, foreign, indexes).unique_constraints;
        assert(unique[i].columns[k] == row.2@);
        assert(unique[i].name == row.0@);
    }
    if forall|i: int| 0 <= i < constraints.len() ==> (#[trigger] constraints[i]).1@
        != "PRIMARY KEY"@ {
        lemma_no_primary(constraints);
    }
}

proof fn lemma_no_primary(constraints: Seq<ConstraintColumnRow>)
    requires
        forall|i: int|
            0 <= i < constraints.len() ==> (#[trigger] constraints[i]).1@ != "PRIMARY KEY"@,
    ensures
        constraint_rows(constraints, true).len() == 0,
    decreases constraints.len(),
{
    if constraints.len() > 0 {
        let before = constraints.drop_last();
        assert forall|i: int| 0 <= i < before.len() implies (#[trigger] before[i]).1@
            != "PRIMARY KEY"@ by {
            assert(before[i] == constraints[i]);
        }
        lemma_no_primary(before);
        assert(constraints[constraints.len() - 1] == constraints.last());
    }
}

proof fn lemma_constraint_row(constraints: Seq<ConstraintColumnRow>, primary: bool, at: int)
    requires
        0 <= at < constraints.len(),
        (constraints[at].1@ == "PRIMARY KEY"@) == primary,
    ensures
        exists|i: int|
            0 <= i < constraint_rows(constraints, primary).len() && #[trigger] constraint_rows(
                constraints,
                primary,
            )[i] == (
                name_key(constraints[at].0@),
                Some(plain_item(constraints[at].3 as int, constraints[at].2@)),
            ),
    decreases constraints.len(),
{
    let before = constraints.drop_last();
    let rows = constraint_rows(constraints, primary);
    let shorter = constraint_rows(before, primary);
    if at < before.len() {
        assert(before[at] == constraints[at]);
        lemma_constraint_row(before, primary, at);
        let entry = (
            name_key(constraints[at].0@),
            Some(plain_item(constraints[at].3 as int, constraints[at].2@)),
        );
        let i = choose|i: int| 0 <= i < shorter.len() && #[trigger] shorter[i] == entry;
        assert(rows[i] == entry);
    } else {
        assert(constraints[at] == constraints.last());
        let i = shorter.len() as int;
        assert(rows[i] == (
            name_key(constraints[at].0@),
            Some(plain_item(constraints[at].3 as int, constraints[at].2@)),
        ));
    }
}

/// Whether a list of indexes has one of a name with a column.
pub open spec fn indexes_column(
    list: Seq<IndexModel>,
    name: Seq<char>,
    column: Seq<char>,
    unique: bool,
) -> bool {
    exists|i: int|
        0 <= i < list.len() && (#[trigger] list[i]).name == name && list[i].columns.contains(column)
            && list[i].unique == unique
}

/// Every column of an index of MySQL is among the columns of the index that its row names, and the
/// index is unique exactly where no row of it says otherwise.
pub proof fn lemma_mysql_indexes_hold_their_columns(
    constraints: Seq<ConstraintColumnRow>,
    foreign: Seq<ForeignKeyColumnRow>,
    indexes: Seq<IndexColumnRow>,
    at: int,
)
    requires
        0 <= at < indexes.len(),
    ensures
        indexes[at].2 matches Some(column) ==> indexes_column(
            mysql_metadata(constraints, foreign, indexes).indexes,
            indexes[at].0@,
            column@,
            forall|i: int|
                0 <= i < indexes.len() && (#[trigger] indexes[i]).0@ == indexes[at].0@
                    ==> indexes[i].1 == 0,
        ),
{
    if let Some(column) = indexes[at].2 {
        let row = indexes[at];
        let key = name_key(row.0@);
        let item = plain_item(row.3 as int, column@);
        let rows = index_rows(indexes);
        lemma_index_row(indexes, at);
        assert(rows[at] == (key, Some(item)));
        lemma_groups_hold_their_rows(rows, key, item);
        let list = grouped(rows);
        lemma_held_at(list, key, item);
        let i = choose|i: int| holds_at(list, i, key, item);
        let k = choose|k: int| 0 <= k < list[i].items.len() && list[i].items[k] == item;
        let found = mysql_metadata(constraints, foreign, indexes).indexes[i];
        assert(found.columns[k] == column@);
        assert(found.name == row.0@);
    }
}

proof fn lemma_index_row(indexes: Seq<IndexColumnRow>, at: int)
    requires
        0 <= at < indexes.len(),
    ensures
        index_rows(indexes).len() == indexes.len(),
        index_rows(indexes)[at] == (
            name_key(indexes[at].0@),
            match indexes[at].2 {
                Some(column) => Some(plain_item(indexes[at].3 as int, column@)),
                None => None,
            },
        ),
    decreases indexes.len(),
{
    let before = indexes.drop_last();
    if before.len() > 0 {
        lemma_index_row(
            before,
            if at < before.len() {
                at
            } else {
                0
            },
        );
    } else {
        assert(index_rows(before).len() == 0);
    }
    if at < before.len() {
        assert(before[at] == indexes[at]);
    }
}

/// The columns of a group stand in the order of their ordinals, and each key has one group.
pub proof fn lemma_groups_are_in_order(rows: Seq<(KeyModel, Option<ItemModel>)>)
    ensures
        keys_ascend(grouped(rows)),
        forall|i: int|
            0 <= i < grouped(rows).len() ==> in_ordinal_order(#[trigger] grouped(rows)[i].items),
{
    lemma_groups_ascend(rows);
    lemma_groups_in_ordinal_order(rows);
}

/// The kind of a constraint of SQL Server is what its row says, and a foreign key leads to the table
/// and the column that its row names.
pub proof fn lemma_tds_constraints_are_read(row: ConstraintRow)
    ensures
        row_column(row) matches Ok(column) ==> {
            &&& row.kind is Some && row.name is Some && row.column is Some && row.ordinal is Some
            &&& column.name == row.name->0@
            &&& column.column == row.column->0@
            &&& column.ordinal == row.ordinal->0
            &&& match column.kind {
                ConstraintModel::PrimaryKey => row.kind->0@ == "PRIMARY_KEY"@,
                ConstraintModel::UniqueConstraint => row.kind->0@ == "UNIQUE_CONSTRAINT"@,
                ConstraintModel::ForeignKey { referenced_entity, referenced_column } => {
                    &&& row.kind->0@ == "FOREIGN_KEY"@
                    &&& row.referenced_schema is Some && row.referenced_table is Some
                    &&& referenced_entity == row.referenced_schema->0@ + "."@
                        + row.referenced_table->0@
                    &&& row.referenced_column is Some && referenced_column
                        == row.referenced_column->0@
                },
            }
        },
{
}

/// Every column of a foreign key of SQL Server leads to the column that it names, and every column
/// of a unique constraint is among its columns.
pub proof fn lemma_tds_constraints_hold_their_columns(
    constraints: Seq<TdsConstraintColumn>,
    indexes: Seq<TdsIndexColumn>,
    at: int,
)
    requires
        0 <= at < constraints.len(),
    ensures
        constraints[at].kind matches TdsConstraintKind::ForeignKey {
            referenced_entity,
            referenced_column,
        } ==> exists|i: int|
            0 <= i < tds_metadata(constraints, indexes).foreign_keys.len() && leads(
                #[trigger] tds_metadata(constraints, indexes).foreign_keys[i],
                constraints[at].name@,
                constraints[at].column@,
                referenced_entity@,
                referenced_column@,
            ),
        constraints[at].kind is UniqueConstraint ==> constrains(
            tds_metadata(constraints, indexes).unique_constraints,
            constraints[at].name@,
            constraints[at].column@,
        ),
        constraints[at].kind is PrimaryKey ==> tds_metadata(
            constraints,
            indexes,
        ).primary_key is Some,
{
    let column = constraints[at];
    let class = match column.kind {
        TdsConstraintKind::PrimaryKey => ConstraintClass::Primary,
        TdsConstraintKind::UniqueConstraint => ConstraintClass::Unique,
        TdsConstraintKind::ForeignKey { .. } => ConstraintClass::Foreign,
    };
    let entry = constraint_entry(column, class)->0;
    let key = entry.0;
    let item = entry.1->0;
    let rows = class_rows(constraints, class);
    lemma_class_row(constraints, class, at);
    lemma_groups_hold_their_rows(rows, key, item);
    let list = grouped(rows);
    lemma_held_at(list, key, item);
    let i = choose|i: int| holds_at(list, i, key, item);
    let k = choose|k: int| 0 <= k < list[i].items.len() && list[i].items[k] == item;
    let metadata = tds_metadata(constraints, indexes);
    match column.kind {
        TdsConstraintKind::ForeignKey { referenced_entity, referenced_column } => {
            let found = metadata.foreign_keys[i];
            assert(found.columns[k] == column.column@);
            assert(found.referenced_columns[k] == referenced_column@);
            assert(leads(
                metadata.foreign_keys[i],
                column.name@,
                column.column@,
                referenced_entity@,
                referenced_column@,
            ));
        },
        TdsConstraintKind::UniqueConstraint => {
            assert(metadata.unique_constraints[i].columns[k] == column.column@);
            assert(metadata.unique_constraints[i].name == column.name@);
        },
        _ => {},
    }
}

proof fn lemma_class_row(constraints: Seq<TdsConstraintColumn>, class: ConstraintClass, at: int)
    requires
        0 <= at < constraints.len(),
        constraint_entry(constraints[at], class) is Some,
    ensures
        exists|i: int|
            0 <= i < class_rows(constraints, class).len() && #[trigger] class_rows(
                constraints,
                class,
            )[i] == constraint_entry(constraints[at], class)->0,
    decreases constraints.len(),
{
    let before = constraints.drop_last();
    let rows = class_rows(constraints, class);
    let shorter = class_rows(before, class);
    let entry = constraint_entry(constraints[at], class)->0;
    if at < before.len() {
        assert(before[at] == constraints[at]);
        lemma_class_row(before, class, at);
        let i = choose|i: int| 0 <= i < shorter.len() && #[trigger] shorter[i] == entry;
        assert(rows[i] == entry);
    } else {
        assert(constraints[at] == constraints.last());
        assert(rows[shorter.len() as int] == entry);
    }
}

/// Every column of an index of SQL Server is among the columns of the index that it names, with what
/// it says of its uniqueness.
pub proof fn lemma_tds_indexes_hold_their_columns(
    constraints: Seq<TdsConstraintColumn>,
    indexes: Seq<TdsIndexColumn>,
    at: int,
)
    requires
        0 <= at < indexes.len(),
    ensures
        indexes_column(
            tds_metadata(constraints, indexes).indexes,
            indexes[at].name@,
            indexes[at].column@,
            indexes[at].unique,
        ),
{
    let row = indexes[at];
    let key = KeyModel { parts: seq![row.name@], flag: row.unique };
    let item = plain_item(row.ordinal as int, row.column@);
    let rows = crate::sql::sql_server_catalog::index_rows(indexes);
    lemma_tds_index_row(indexes, at);
    assert(rows[at] == (key, Some(item)));
    lemma_groups_hold_their_rows(rows, key, item);
    let list = grouped(rows);
    lemma_held_at(list, key, item);
    let i = choose|i: int| holds_at(list, i, key, item);
    let k = choose|k: int| 0 <= k < list[i].items.len() && list[i].items[k] == item;
    let found = tds_metadata(constraints, indexes).indexes[i];
    assert(found.columns[k] == row.column@);
    assert(found.name == row.name@);
}

proof fn lemma_tds_index_row(indexes: Seq<TdsIndexColumn>, at: int)
    requires
        0 <= at < indexes.len(),
    ensures
        crate::sql::sql_server_catalog::index_rows(indexes).len() == indexes.len(),
        crate::sql::sql_server_catalog::index_rows(indexes)[at] == (
            KeyModel { parts: seq![indexes[at].name@], flag: indexes[at].unique },
            Some(plain_item(indexes[at].ordinal as int, indexes[at].column@)),
        ),
    decreases indexes.len(),
{
    let before = indexes.drop_last();
    if before.len() > 0 {
        lemma_tds_index_row(
            before,
            if at < before.len() {
                at
            } else {
                0
            },
        );
    } else {
        assert(crate::sql::sql_server_catalog::index_rows(before).len() == 0);
    }
    if at < before.len() {
        assert(before[at] == indexes[at]);
    }
}

/// Whether a value is a list of texts.
pub open spec fn is_text_list(value: ValueModel, list: Seq<Seq<char>>) -> bool {
    value matches ValueModel::Array(items) && items.len() == list.len() && forall|i: int|
        0 <= i < items.len() ==> #[trigger] items[i] == ValueModel::String(list[i])
}

/// What stands in a document under a name.
pub open spec fn entry_of(value: ValueModel, name: Seq<char>) -> Option<ValueModel> {
    match value {
        ValueModel::Document(record) => named(record, name),
        _ => None,
    }
}

/// The names of what is said of keys and indexes are different texts.
proof fn lemma_key_names()
    ensures
        "name"@ != "columns"@,
        "name"@ != "unique"@,
        "name"@ != "referenced_entity"@,
        "name"@ != "referenced_columns"@,
        "columns"@ != "unique"@,
        "columns"@ != "referenced_entity"@,
        "columns"@ != "referenced_columns"@,
        "referenced_entity"@ != "referenced_columns"@,
{
    reveal_strlit("name");
    reveal_strlit("columns");
    reveal_strlit("unique");
    reveal_strlit("referenced_entity");
    reveal_strlit("referenced_columns");
    assert("name"@.len() == 4 && "columns"@.len() == 7 && "unique"@.len() == 6
        && "referenced_entity"@.len() == 17 && "referenced_columns"@.len() == 18);
}

/// A constraint shows its name and its columns, in order.
pub proof fn lemma_constraints_are_shown(key: NamedModel)
    ensures
        entry_of(named_value(key), "name"@) == Some(ValueModel::String(key.name)),
        entry_of(named_value(key), "columns"@) matches Some(value) && is_text_list(
            value,
            key.columns,
        ),
{
    lemma_key_names();
    let one = ("name"@, ValueModel::String(key.name));
    let two = ("columns"@, text_array(key.columns));
    let first = seq![one];
    let entries = first.push(two);
    lemma_records_keep_the_last(entries, one.0);
    lemma_records_keep_the_last(entries, two.0);
    lemma_pushed_last(first, two, one.0);
    lemma_pushed_last(first, two, two.0);
    assert(first.last() == one);
}

/// An index shows its name, its columns in order, and whether it is unique.
pub proof fn lemma_indexes_are_shown(index: IndexModel)
    ensures
        entry_of(index_value(index), "name"@) == Some(ValueModel::String(index.name)),
        entry_of(index_value(index), "columns"@) matches Some(value) && is_text_list(
            value,
            index.columns,
        ),
        entry_of(index_value(index), "unique"@) == Some(ValueModel::Bool(index.unique)),
{
    lemma_key_names();
    let one = ("name"@, ValueModel::String(index.name));
    let two = ("columns"@, text_array(index.columns));
    let three = ("unique"@, ValueModel::Bool(index.unique));
    let first = seq![one];
    let entries = first.push(two).push(three);
    lemma_records_keep_the_last(entries, one.0);
    lemma_records_keep_the_last(entries, two.0);
    lemma_records_keep_the_last(entries, three.0);
    lemma_pushed_last(first.push(two), three, one.0);
    lemma_pushed_last(first.push(two), three, two.0);
    lemma_pushed_last(first.push(two), three, three.0);
    lemma_pushed_last(first, two, one.0);
    lemma_pushed_last(first, two, two.0);
    assert(first.last() == one);
}

/// A foreign key shows its name, its columns in order, the table that it leads to, and the columns
/// there.
pub proof fn lemma_foreign_keys_are_shown(key: ForeignKeyModel)
    ensures
        entry_of(foreign_value(key), "name"@) == Some(ValueModel::String(key.name)),
        entry_of(foreign_value(key), "columns"@) matches Some(value) && is_text_list(
            value,
            key.columns,
        ),
        entry_of(foreign_value(key), "referenced_entity"@) == Some(
            ValueModel::String(key.referenced_entity),
        ),
        entry_of(foreign_value(key), "referenced_columns"@) matches Some(value) && is_text_list(
            value,
            key.referenced_columns,
        ),
{
    lemma_key_names();
    let one = ("name"@, ValueModel::String(key.name));
    let two = ("columns"@, text_array(key.columns));
    let three = ("referenced_entity"@, ValueModel::String(key.referenced_entity));
    let four = ("referenced_columns"@, text_array(key.referenced_columns));
    lemma_four(one, two, three, four, one.0);
    let entries = seq![one].push(two).push(three).push(four);
    lemma_records_keep_the_last(entries, one.0);
    lemma_records_keep_the_last(entries, two.0);
    lemma_records_keep_the_last(entries, three.0);
    lemma_records_keep_the_last(entries, four.0);
}

/// The names of what is said of a table are different texts.
proof fn lemma_metadata_names()
    ensures
        "primary_key"@ != "foreign_keys"@,
        "primary_key"@ != "unique_constraints"@,
        "primary_key"@ != "indexes"@,
        "foreign_keys"@ != "unique_constraints"@,
        "foreign_keys"@ != "indexes"@,
        "unique_constraints"@ != "indexes"@,
{
    reveal_strlit("primary_key");
    reveal_strlit("foreign_keys");
    reveal_strlit("unique_constraints");
    reveal_strlit("indexes");
    assert("primary_key"@.len() == 11 && "foreign_keys"@.len() == 12 && "unique_constraints"@.len()
        == 18 && "indexes"@.len() == 7);
}

/// A table shows its primary key, and all of its foreign keys, unique constraints and indexes, in
/// order.
pub proof fn lemma_metadata_is_shown(metadata: MetadataModel)
    ensures
        named(metadata_record(metadata), "primary_key"@) == Some(
            match metadata.primary_key {
                Some(key) => named_value(key),
                None => ValueModel::Null,
            },
        ),
        named(metadata_record(metadata), "foreign_keys"@) matches Some(ValueModel::Array(list))
            && list.len() == metadata.foreign_keys.len() && forall|i: int|
            0 <= i < list.len() ==> #[trigger] list[i] == foreign_value(metadata.foreign_keys[i]),
        named(metadata_record(metadata), "unique_constraints"@) matches Some(ValueModel::Array(list))
            && list.len() == metadata.unique_constraints.len() && forall|i: int|
            0 <= i < list.len() ==> #[trigger] list[i] == named_value(
                metadata.unique_constraints[i],
            ),
        named(metadata_record(metadata), "indexes"@) matches Some(ValueModel::Array(list))
            && list.len() == metadata.indexes.len() && forall|i: int|
            0 <= i < list.len() ==> #[trigger] list[i] == index_value(metadata.indexes[i]),
{
    lemma_metadata_names();
    let one = (
        "primary_key"@,
        match metadata.primary_key {
            Some(key) => named_value(key),
            None => ValueModel::Null,
        },
    );
    let two = (
        "foreign_keys"@,
        ValueModel::Array(
            Seq::new(
                metadata.foreign_keys.len(),
                |i: int| foreign_value(metadata.foreign_keys[i]),
            ),
        ),
    );
    let three = (
        "unique_constraints"@,
        ValueModel::Array(
            Seq::new(
                metadata.unique_constraints.len(),
                |i: int| named_value(metadata.unique_constraints[i]),
            ),
        ),
    );
    let four = (
        "indexes"@,
        ValueModel::Array(
            Seq::new(metadata.indexes.len(), |i: int| index_value(metadata.indexes[i])),
        ),
    );
    lemma_four(one, two, three, four, one.0);
    let entries = seq![one].push(two).push(three).push(four);
    lemma_records_keep_the_last(entries, one.0);
    lemma_records_keep_the_last(entries, two.0);
    lemma_records_keep_the_last(entries, three.0);
    lemma_records_keep_the_last(entries, four.0);
    assert(metadata_record(metadata) == record_of(entries));
}

/// The key of every group is that of a row.
proof fn lemma_group_keys(rows: Seq<(KeyModel, Option<ItemModel>)>, key: KeyModel)
    requires
        forall|i: int| 0 <= i < rows.len() ==> (#[trigger] rows[i]).0 == key,
    ensures
        rows.len() == 0 ==> grouped(rows).len() == 0,
        rows.len() > 0 ==> grouped(rows).len() == 1 && grouped(rows)[0].key == key,
    decreases rows.len(),
{
    if rows.len() > 0 {
        let before = rows.drop_last();
        assert forall|i: int| 0 <= i < before.len() implies (#[trigger] before[i]).0 == key by {
            assert(before[i] == rows[i]);
        }
        lemma_group_keys(before, key);
        assert(rows[rows.len() - 1] == rows.last());
    }
}

/// Where the rows of a primary key have one name, the key has that name and holds the column of each
/// of them.
pub proof fn lemma_primary_keys_hold_their_columns(
    constraints: Seq<ConstraintColumnRow>,
    foreign: Seq<ForeignKeyColumnRow>,
    indexes: Seq<IndexColumnRow>,
    name: Seq<char>,
    at: int,
)
    requires
        0 <= at < constraints.len(),
        constraints[at].1@ == "PRIMARY KEY"@,
        forall|i: int|
            0 <= i < constraints.len() && (#[trigger] constraints[i]).1@ == "PRIMARY KEY"@
                ==> constraints[i].0@ == name,
    ensures
        mysql_metadata(constraints, foreign, indexes).primary_key matches Some(key) && key.name
            == name && key.columns.contains(constraints[at].2@),
{
    let row = constraints[at];
    let key = name_key(row.0@);
    let item = plain_item(row.3 as int, row.2@);
    let rows = constraint_rows(constraints, true);
    lemma_primary_rows(constraints, name);
    lemma_constraint_row(constraints, true, at);
    lemma_groups_hold_their_rows(rows, key, item);
    let list = grouped(rows);
    lemma_held_at(list, key, item);
    let i = choose|i: int| holds_at(list, i, key, item);
    lemma_group_keys(rows, key);
    let k = choose|k: int| 0 <= k < list[i].items.len() && list[i].items[k] == item;
    let found = mysql_metadata(constraints, foreign, indexes).primary_key->0;
    assert(found.columns[k] == row.2@);
}

proof fn lemma_primary_rows(constraints: Seq<ConstraintColumnRow>, name: Seq<char>)
    requires
        forall|i: int|
            0 <= i < constraints.len() && (#[trigger] constraints[i]).1@ == "PRIMARY KEY"@
                ==> constraints[i].0@ == name,
    ensures
        forall|i: int|
            0 <= i < constraint_rows(constraints, true).len() ==> (#[trigger] constraint_rows(
                constraints,
                true,
            )[i]).0 == name_key(name),
    decreases constraints.len(),
{
    if constraints.len() > 0 {
        let before = constraints.drop_last();
        assert forall|i: int|
            0 <= i < before.len() && (#[trigger] before[i]).1@
                == "PRIMARY KEY"@ implies before[i].0@ == name by {
            assert(before[i] == constraints[i]);
        }
        lemma_primary_rows(before, name);
        let rows = constraint_rows(constraints, true);
        let shorter = constraint_rows(before, true);
        assert(constraints[constraints.len() - 1] == constraints.last());
        assert forall|i: int| 0 <= i < rows.len() implies (#[trigger] rows[i]).0 == name_key(
            name,
        ) by {
            if i < shorter.len() {
                assert(rows[i] == shorter[i]);
            }
        }
    }
}

/// A table is described by the questions of its product's dialect, in the order in which their
/// answers are read, and a server is asked for its identity in its own dialect.
pub proof fn lemma_products_are_asked_in_their_dialect(product: SqlProduct)
    ensures
        dialect(product) is MySql ==> {
            let asked = describe_sql(product);
            &&& asked.len() == 5
            &&& asked[0] == MYSQL_TABLE@
            &&& asked[1] == MYSQL_COLUMNS@
            &&& asked[2] == MYSQL_CONSTRAINTS@
            &&& asked[3] == MYSQL_FOREIGN_KEYS@
            &&& asked[4] == MYSQL_INDEXES@
            &&& identity_sql(product) == "SELECT VERSION(), DATABASE(), CURRENT_USER()"@
        },
        dialect(product) is PostgreSql ==> describe_sql(product) == seq![POSTGRES_COLUMNS@]
            && identity_sql(product) == "SELECT version(), current_database(), current_user"@,
        dialect(product) is Oracle ==> describe_sql(product) == seq![ORACLE_COLUMNS@]
            && identity_sql(product)
            == "SELECT SYS_CONTEXT('USERENV', 'DB_NAME'), SYS_CONTEXT('USERENV', 'CURRENT_SCHEMA') FROM DUAL"@,
        dialect(product) is SqlServer ==> {
            let asked = describe_sql(product);
            &&& asked.len() == 3
            &&& asked[0] == SQL_SERVER_COLUMNS@
            &&& asked[1] == SQL_SERVER_CONSTRAINTS@
            &&& asked[2] == SQL_SERVER_INDEXES@
        },
{
}

/// A page of a catalog is searched for with one row more than it may hold.
pub proof fn lemma_pages_are_searched_for(
    product: SqlProduct,
    context: ConnectorContext,
    profile: ConnectionProfile,
    query: CatalogQuery,
)
    requires
        context.max_rows > 0,
        profile.policy.max_rows > 0,
    ensures
        page_statement_result(product, context, profile, query) matches Ok(built) ==> exists|
            fetch: CatalogFetch,
        |
            {
                &&& #[trigger] search_statement_result(product, profile, query, fetch) == Ok::<
                    crate::sql::statement::QueryModel,
                    ErrorModel,
                >(built)
                &&& fetch.limit == 1 + smaller(
                    smaller(query.limit as int, context.max_rows as int),
                    profile.policy.max_rows as int,
                )
                &&& fetch.limit <= fetch.context_rows
                &&& fetch.limit <= fetch.policy_rows
            },
{
    if let Ok(built) = page_statement_result(product, context, profile, query) {
        let fetch = crate::sql::cursor::fetch_result(context, profile, query)->Ok_0;
        assert(search_statement_result(product, profile, query, fetch) is Ok);
    }
}

} // verus!
