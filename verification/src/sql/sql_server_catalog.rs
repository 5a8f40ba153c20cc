//! The catalog and the values of Microsoft SQL Server.
use crate::encoding::{
    base64_bytes, base64_text, decode_base64, encode_base64, parse_uuid, uuid_bytes,
};
use crate::model::{
    failure, framed, invalid, invalid_request, is_description_result, protocol, protocol_failure,
    CatalogEntity, CatalogQuery, ConnectorError, DescriptionModel, EntityDescription, EntityModel,
    ErrorCategory, ErrorModel, ErrorPhase,
};
use crate::sql::grouping::{
    add_row, columns_of, grouped, groups, item_columns, Group, GroupItem, GroupKey, GroupModel,
    ItemModel, KeyModel,
};
use crate::sql::metadata::{
    first_named, first_of, foreign_groups, foreign_keys, index_models, keys_have,
    lemma_with_row_keys, metadata_record, named_columns, named_groups, named_models, IndexMetadata,
    IndexModel, MetadataModel, RelationalMetadata,
};
use crate::sql::mysql_catalog::{
    anywhere, item_of_column, key_of_name, name_key, optional_string_value, pattern_anywhere,
    plain_item, text_or_null,
};
use crate::sql::statement::{BuiltQuery, QueryModel};
use crate::temporal::{
    date_form, date_of, date_time_form, moment_of, parse_date, parse_moment, parse_time, time_form,
    time_of, write_date, write_date_time, write_time, DateParts, TimeParts,
};
use crate::text::{borrowed, clone_optional, decimal, decimal_text, optional_text, same, texts};
use crate::value::{
    record_of, records, values, with_entry, DbRecord, DbValue, Double, DoubleModel, RecordModel,
    ValueModel,
};
use vstd::prelude::*;

verus! {

broadcast use {
    crate::text::group_texts,
    crate::value::group_models,
    crate::sql::grouping::lemma_grouped_push,
};

/// The kinds of constraints.
#[derive(Debug)]
pub enum TdsConstraintKind {
    PrimaryKey,
    ForeignKey { referenced_entity: String, referenced_column: String },
    UniqueConstraint,
}

/// A column of a constraint.
#[derive(Debug)]
pub struct TdsConstraintColumn {
    pub kind: TdsConstraintKind,
    pub name: String,
    pub column: String,
    pub ordinal: i32,
}

/// A column of an index.
#[derive(Debug)]
pub struct TdsIndexColumn {
    pub name: String,
    pub column: String,
    pub ordinal: i32,
    pub unique: bool,
}

/// What a [`TdsConstraintKind`] is.
pub enum ConstraintModel {
    PrimaryKey,
    ForeignKey { referenced_entity: Seq<char>, referenced_column: Seq<char> },
    UniqueConstraint,
}

impl View for TdsConstraintKind {
    type V = ConstraintModel;

    open spec fn view(&self) -> ConstraintModel {
        match *self {
            TdsConstraintKind::PrimaryKey => ConstraintModel::PrimaryKey,
            TdsConstraintKind::ForeignKey { referenced_entity, referenced_column } =>
                ConstraintModel::ForeignKey {
                referenced_entity: referenced_entity@,
                referenced_column: referenced_column@,
            },
            TdsConstraintKind::UniqueConstraint => ConstraintModel::UniqueConstraint,
        }
    }
}

/// What a [`TdsConstraintColumn`] is.
pub struct ConstraintColumnModel {
    pub kind: ConstraintModel,
    pub name: Seq<char>,
    pub column: Seq<char>,
    pub ordinal: i32,
}

impl View for TdsConstraintColumn {
    type V = ConstraintColumnModel;

    open spec fn view(&self) -> ConstraintColumnModel {
        ConstraintColumnModel {
            kind: self.kind@,
            name: self.name@,
            column: self.column@,
            ordinal: self.ordinal,
        }
    }
}

/// A catalog row of an index.
#[derive(Debug)]
pub struct IndexRow {
    pub name: Option<String>,
    pub column: Option<String>,
    pub ordinal: Option<i32>,
    pub unique: Option<bool>,
}

/// A column of an index, of whose row nothing may be null.
pub open spec fn index_column_result(row: IndexRow) -> Result<
    (Seq<char>, Seq<char>, i32, bool),
    ErrorModel,
> {
    match required_text(row.name) {
        Err(error) => Err(error),
        Ok(name) => match required_text(row.column) {
            Err(error) => Err(error),
            Ok(column) => match row.ordinal {
                None => Err(
                    protocol_failure("SQL Server returned an unexpected NULL catalog ordinal"@),
                ),
                Some(ordinal) => match row.unique {
                    None => Err(
                        protocol_failure("SQL Server returned a NULL index uniqueness flag"@),
                    ),
                    Some(unique) => Ok((name, column, ordinal, unique)),
                },
            },
        },
    }
}

/// Reads a column of an index.
pub fn tds_index_column(row: &IndexRow) -> (result: Result<TdsIndexColumn, ConnectorError>)
    ensures
        match (result, index_column_result(*row)) {
            (Ok(found), Ok((name, column, ordinal, unique))) => found.name@ == name
                && found.column@ == column && found.ordinal == ordinal && found.unique == unique,
            (Err(error), Err(wanted)) => error@ == wanted,
            _ => false,
        },
{
    let name = match required_tds_string(&row.name) {
        Err(error) => {
            return Err(error);
        },
        Ok(name) => name,
    };
    let column = match required_tds_string(&row.column) {
        Err(error) => {
            return Err(error);
        },
        Ok(column) => column,
    };
    let ordinal: i32 = match row.ordinal {
        None => {
            return Err(protocol("SQL Server returned an unexpected NULL catalog ordinal"));
        },
        Some(ordinal) => ordinal,
    };
    match row.unique {
        None => Err(protocol("SQL Server returned a NULL index uniqueness flag")),
        Some(unique) => Ok(TdsIndexColumn { name, column, ordinal, unique }),
    }
}

/// A catalog row of a constraint: its texts by position, and the ordinal.
#[derive(Debug)]
pub struct ConstraintRow {
    pub kind: Option<String>,
    pub name: Option<String>,
    pub column: Option<String>,
    pub ordinal: Option<i32>,
    pub referenced_schema: Option<String>,
    pub referenced_table: Option<String>,
    pub referenced_column: Option<String>,
}

/// A text of the catalog that must not be null.
pub open spec fn required_text(text: Option<String>) -> Result<Seq<char>, ErrorModel> {
    match text {
        Some(text) => Ok(text@),
        None => Err(
            protocol_failure("SQL Server returned an unexpected NULL catalog value"@),
        ),
    }
}

/// A text of the catalog that must not be null.
pub fn required_tds_string(text: &Option<String>) -> (result: Result<String, ConnectorError>)
    ensures
        match (result, required_text(*text)) {
            (Ok(text), Ok(wanted)) => text@ == wanted,
            (Err(error), Err(wanted)) => error@ == wanted,
            _ => false,
        },
{
    match text {
        Some(text) => Ok(text.clone()),
        None => Err(protocol("SQL Server returned an unexpected NULL catalog value")),
    }
}

/// The kind of a constraint's row.
pub open spec fn row_kind(row: ConstraintRow) -> Result<ConstraintModel, ErrorModel> {
    match required_text(row.kind) {
        Err(error) => Err(error),
        Ok(kind) => if kind == "PRIMARY_KEY"@ {
            Ok(ConstraintModel::PrimaryKey)
        } else if kind == "FOREIGN_KEY"@ {
            match required_text(row.referenced_schema) {
                Err(error) => Err(error),
                Ok(schema) => match required_text(row.referenced_table) {
                    Err(error) => Err(error),
                    Ok(table) => match required_text(row.referenced_column) {
                        Err(error) => Err(error),
                        Ok(column) => Ok(
                            ConstraintModel::ForeignKey {
                                referenced_entity: schema + "."@ + table,
                                referenced_column: column,
                            },
                        ),
                    },
                },
            }
        } else if kind == "UNIQUE_CONSTRAINT"@ {
            Ok(ConstraintModel::UniqueConstraint)
        } else {
            Err(protocol_failure("SQL Server returned an unexpected constraint kind"@))
        },
    }
}

/// The column of a constraint's row.
pub open spec fn row_column(row: ConstraintRow) -> Result<ConstraintColumnModel, ErrorModel> {
    match row_kind(row) {
        Err(error) => Err(error),
        Ok(kind) => match required_text(row.name) {
            Err(error) => Err(error),
            Ok(name) => match required_text(row.column) {
                Err(error) => Err(error),
                Ok(column) => match row.ordinal {
                    None => Err(
                        protocol_failure(
                            "SQL Server returned an unexpected NULL catalog ordinal"@,
                        ),
                    ),
                    Some(ordinal) => Ok(ConstraintColumnModel { kind, name, column, ordinal }),
                },
            },
        },
    }
}

/// Reads the kind of a constraint's row.
fn read_kind(row: &ConstraintRow) -> (result: Result<TdsConstraintKind, ConnectorError>)
    ensures
        match (result, row_kind(*row)) {
            (Ok(kind), Ok(wanted)) => kind@ == wanted,
            (Err(error), Err(wanted)) => error@ == wanted,
            _ => false,
        },
{
    proof {
        reveal_strlit("PRIMARY_KEY");
        reveal_strlit("FOREIGN_KEY");
        reveal_strlit("UNIQUE_CONSTRAINT");
        assert("PRIMARY_KEY"@[0] != "FOREIGN_KEY"@[0]);
        assert("PRIMARY_KEY"@[0] != "UNIQUE_CONSTRAINT"@[0]);
        assert("UNIQUE_CONSTRAINT"@[0] != "FOREIGN_KEY"@[0]);
    }
    let kind = match required_tds_string(&row.kind) {
        Err(error) => {
            return Err(error);
        },
        Ok(kind) => kind,
    };
    if same(kind.as_str(), "PRIMARY_KEY") {
        return Ok(TdsConstraintKind::PrimaryKey);
    }
    if same(kind.as_str(), "UNIQUE_CONSTRAINT") {
        return Ok(TdsConstraintKind::UniqueConstraint);
    }
    if !same(kind.as_str(), "FOREIGN_KEY") {
        return Err(protocol("SQL Server returned an unexpected constraint kind"));
    }
    let schema = match required_tds_string(&row.referenced_schema) {
        Err(error) => {
            return Err(error);
        },
        Ok(schema) => schema,
    };
    let table = match required_tds_string(&row.referenced_table) {
        Err(error) => {
            return Err(error);
        },
        Ok(table) => table,
    };
    match required_tds_string(&row.referenced_column) {
        Err(error) => Err(error),
        Ok(column) => Ok(
            TdsConstraintKind::ForeignKey {
                referenced_entity: framed(schema.as_str(), ".", table.as_str()),
                referenced_column: column,
            },
        ),
    }
}

/// Reads a catalog row of a constraint.
pub fn tds_constraint_column(row: &ConstraintRow) -> (result: Result<
    TdsConstraintColumn,
    ConnectorError,
>)
    ensures
        match (result, row_column(*row)) {
            (Ok(column), Ok(wanted)) => column@ == wanted,
            (Err(error), Err(wanted)) => error@ == wanted,
            _ => false,
        },
{
    let kind = match read_kind(row) {
        Err(error) => {
            return Err(error);
        },
        Ok(kind) => kind,
    };
    let name = match required_tds_string(&row.name) {
        Err(error) => {
            return Err(error);
        },
        Ok(name) => name,
    };
    let column = match required_tds_string(&row.column) {
        Err(error) => {
            return Err(error);
        },
        Ok(column) => column,
    };
    match row.ordinal {
        None => Err(protocol("SQL Server returned an unexpected NULL catalog ordinal")),
        Some(ordinal) => Ok(TdsConstraintColumn { kind, name, column, ordinal }),
    }
}

/// What of the constraints is grouped.
#[derive(Debug, Clone, Copy, PartialEq, Eq, Structural)]
pub enum ConstraintClass {
    Primary,
    Foreign,
    Unique,
}

/// The key and item of a constraint's column in its class.
pub open spec fn constraint_entry(column: TdsConstraintColumn, class: ConstraintClass) -> Option<
    (KeyModel, Option<ItemModel>),
> {
    match (column.kind, class) {
        (TdsConstraintKind::PrimaryKey, ConstraintClass::Primary) => Some(
            (
                name_key(column.name@),
                Some(plain_item(column.ordinal as int, column.column@)),
            ),
        ),
        (TdsConstraintKind::UniqueConstraint, ConstraintClass::Unique) => Some(
            (
                name_key(column.name@),
                Some(plain_item(column.ordinal as int, column.column@)),
            ),
        ),
        (
            TdsConstraintKind::ForeignKey { referenced_entity, referenced_column },
            ConstraintClass::Foreign,
        ) => Some(
            (
                KeyModel {
                    parts: seq![column.name@].push(referenced_entity@),
                    flag: false,
                },
                Some(
                    ItemModel {
                        ordinal: column.ordinal as int,
                        column: column.column@,
                        referenced: referenced_column@,
                    },
                ),
            ),
        ),
        _ => None,
    }
}

/// The rows of a class of constraints.
pub open spec fn class_rows(columns: Seq<TdsConstraintColumn>, class: ConstraintClass) -> Seq<
    (KeyModel, Option<ItemModel>),
>
    decreases columns.len(),
{
    if columns.len() == 0 {
        Seq::empty()
    } else {
        match constraint_entry(columns.last(), class) {
            Some(entry) => class_rows(columns.drop_last(), class).push(entry),
            None => class_rows(columns.drop_last(), class),
        }
    }
}

/// The rows of the indexes, by name and uniqueness.
pub open spec fn index_rows(columns: Seq<TdsIndexColumn>) -> Seq<(KeyModel, Option<ItemModel>)>
    decreases columns.len(),
{
    if columns.len() == 0 {
        Seq::empty()
    } else {
        let column = columns.last();
        index_rows(columns.drop_last()).push(
            (
                KeyModel { parts: seq![column.name@], flag: column.unique },
                Some(plain_item(column.ordinal as int, column.column@)),
            ),
        )
    }
}

/// The indexes of some groups.
pub open spec fn index_groups(list: Seq<GroupModel>) -> Seq<IndexModel> {
    Seq::new(
        list.len(),
        |i: int|
            IndexModel {
                name: list[i].key.parts[0],
                columns: item_columns(list[i].items),
                unique: list[i].key.flag,
            },
    )
}

/// The metadata of a table, from the columns of its constraints and indexes.
pub open spec fn tds_metadata(
    constraints: Seq<TdsConstraintColumn>,
    indexes: Seq<TdsIndexColumn>,
) -> MetadataModel {
    MetadataModel {
        primary_key: first_named(grouped(class_rows(constraints, ConstraintClass::Primary))),
        foreign_keys: foreign_groups(grouped(class_rows(constraints, ConstraintClass::Foreign))),
        unique_constraints: named_groups(
            grouped(class_rows(constraints, ConstraintClass::Unique)),
        ),
        indexes: index_groups(grouped(index_rows(indexes))),
    }
}

/// How many texts the keys of a class have.
pub open spec fn class_width(class: ConstraintClass) -> nat {
    match class {
        ConstraintClass::Foreign => 2,
        _ => 1,
    }
}

/// Groups the columns of a class of constraints.
fn group_class(columns: &Vec<TdsConstraintColumn>, class: ConstraintClass) -> (result: Vec<Group>)
    ensures
        groups(result@) == grouped(class_rows(columns@, class)),
        keys_have(groups(result@), class_width(class)),
{
    let mut result: Vec<Group> = Vec::new();
    let mut i: usize = 0;
    assert(columns@.subrange(0, 0) =~= Seq::<TdsConstraintColumn>::empty());
    assert(groups(result@) =~= Seq::<GroupModel>::empty());
    while i < columns.len()
        invariant
            i <= columns@.len(),
            groups(result@) == grouped(class_rows(columns@.subrange(0, i as int), class)),
            keys_have(groups(result@), class_width(class)),
        decreases columns@.len() - i,
    {
        let column = &columns[i];
        let ghost next = columns@.subrange(0, i + 1);
        assert(next.drop_last() =~= columns@.subrange(0, i as int));
        assert(next.last() == *column);
        match (&column.kind, class) {
            (TdsConstraintKind::PrimaryKey, ConstraintClass::Primary) => {
                let key = key_of_name(column.name.as_str());
                let item = item_of_column(column.ordinal as i128, column.column.as_str());
                proof {
                    lemma_with_row_keys(groups(result@), key@, Some(item@), 1);
                }
                add_row(&mut result, key, Some(item));
            },
            (TdsConstraintKind::UniqueConstraint, ConstraintClass::Unique) => {
                let key = key_of_name(column.name.as_str());
                let item = item_of_column(column.ordinal as i128, column.column.as_str());
                proof {
                    lemma_with_row_keys(groups(result@), key@, Some(item@), 1);
                }
                add_row(&mut result, key, Some(item));
            },
            (
                TdsConstraintKind::ForeignKey { referenced_entity, referenced_column },
                ConstraintClass::Foreign,
            ) => {
                let mut parts: Vec<String> = Vec::new();
                parts.push(column.name.clone());
                parts.push(referenced_entity.clone());
                let key = GroupKey { parts, flag: false };
                let item = GroupItem {
                    ordinal: column.ordinal as i128,
                    column: column.column.clone(),
                    referenced: referenced_column.clone(),
                };
                proof {
                    lemma_with_row_keys(groups(result@), key@, Some(item@), 2);
                }
                add_row(&mut result, key, Some(item));
            },
            _ => {},
        }
        i = i + 1;
    }
    assert(columns@.subrange(0, i as int) =~= columns@);
    result
}

/// Groups the columns of the indexes.
fn group_indexes(columns: &Vec<TdsIndexColumn>) -> (result: Vec<Group>)
    ensures
        groups(result@) == grouped(index_rows(columns@)),
        keys_have(groups(result@), 1),
{
    let mut result: Vec<Group> = Vec::new();
    let mut i: usize = 0;
    assert(columns@.subrange(0, 0) =~= Seq::<TdsIndexColumn>::empty());
    assert(groups(result@) =~= Seq::<GroupModel>::empty());
    while i < columns.len()
        invariant
            i <= columns@.len(),
            groups(result@) == grouped(index_rows(columns@.subrange(0, i as int))),
            keys_have(groups(result@), 1),
        decreases columns@.len() - i,
    {
        let column = &columns[i];
        let ghost next = columns@.subrange(0, i + 1);
        assert(next.drop_last() =~= columns@.subrange(0, i as int));
        assert(next.last() == *column);
        let mut parts: Vec<String> = Vec::new();
        parts.push(column.name.clone());
        let key = GroupKey { parts, flag: column.unique };
        let item = item_of_column(column.ordinal as i128, column.column.as_str());
        proof {
            lemma_with_row_keys(groups(result@), key@, Some(item@), 1);
        }
        add_row(&mut result, key, Some(item));
        i = i + 1;
    }
    assert(columns@.subrange(0, i as int) =~= columns@);
    result
}

/// Groups the columns of a table's constraints and indexes, in the order of their ordinals.
pub fn group_tds_relational_metadata(
    constraints: Vec<TdsConstraintColumn>,
    indexes: Vec<TdsIndexColumn>,
) -> (result: RelationalMetadata)
    ensures
        result@ == tds_metadata(constraints@, indexes@),
{
    let primary = named_columns(&group_class(&constraints, ConstraintClass::Primary));
    assert(primary@.len() > 0 ==> named_models(primary@)[0] == primary@[0]@);
    assert(named_models(primary@).len() == primary@.len());
    let primary_key = first_of(primary);
    let unique_constraints = named_columns(&group_class(&constraints, ConstraintClass::Unique));
    let foreign_list = foreign_keys(&group_class(&constraints, ConstraintClass::Foreign));
    let index_list = group_indexes(&indexes);
    let mut index_metadata: Vec<IndexMetadata> = Vec::new();
    let mut i: usize = 0;
    while i < index_list.len()
        invariant
            i <= index_list@.len(),
            keys_have(groups(index_list@), 1),
            index_metadata@.len() == i,
            forall|j: int|
                0 <= j < i ==> (#[trigger] index_metadata@[j])@ == index_groups(
                    groups(index_list@),
                )[j],
        decreases index_list@.len() - i,
    {
        let group = &index_list[i];
        assert(groups(index_list@)[i as int] == group@);
        assert(texts(group.key.parts@).len() == 1);
        assert(texts(group.key.parts@)[0] == group.key.parts@[0]@);
        index_metadata.push(
            IndexMetadata {
                name: group.key.parts[0].clone(),
                columns: columns_of(&group.items),
                unique: group.key.flag,
            },
        );
        i = i + 1;
    }
    assert(index_models(index_metadata@) =~= index_groups(groups(index_list@)));
    RelationalMetadata {
        primary_key,
        foreign_keys: foreign_list,
        unique_constraints,
        indexes: index_metadata,
    }
}

/// The statement that searches the catalog.
pub const SQL_SERVER_SEARCH: &'static str =
    "SELECT T.TABLE_SCHEMA, T.TABLE_NAME, T.TABLE_TYPE FROM INFORMATION_SCHEMA.TABLES AS \
    T WHERE (@P1 IS NULL OR T.TABLE_SCHEMA = @P1) AND (@P2 IS NULL OR T.TABLE_NAME LIKE \
    @P2 OR EXISTS (SELECT 1 FROM INFORMATION_SCHEMA.COLUMNS AS C WHERE C.TABLE_SCHEMA = \
    T.TABLE_SCHEMA AND C.TABLE_NAME = T.TABLE_NAME AND C.COLUMN_NAME LIKE @P2)) ORDER BY \
    T.TABLE_SCHEMA, T.TABLE_NAME OFFSET @P3 ROWS FETCH NEXT @P4 ROWS ONLY";

/// The statement that searches the catalog, and its values.
pub open spec fn tds_catalog(query: CatalogQuery, limit: u32, offset: u64) -> QueryModel {
    QueryModel {
        sql: SQL_SERVER_SEARCH@,
        parameters: seq![text_or_null(optional_text(query.namespace))].push(
            text_or_null(anywhere(optional_text(query.pattern))),
        ).push(ValueModel::UInt64(offset)).push(ValueModel::UInt64(limit as u64)),
        row_limit: Some(limit as usize),
        base_offset: None,
    }
}

/// Builds the statement that searches the catalog.
pub fn tds_catalog_query(query: &CatalogQuery, limit: u32, offset: u64) -> (result: BuiltQuery)
    ensures
        result@ == tds_catalog(*query, limit, offset),
{
    let pattern = pattern_anywhere(&query.pattern);
    let mut parameters: Vec<DbValue> = Vec::new();
    parameters.push(optional_string_value(borrowed(&query.namespace)));
    parameters.push(optional_string_value(borrowed(&pattern)));
    parameters.push(DbValue::UInt64(offset));
    parameters.push(DbValue::UInt64(limit as u64));
    BuiltQuery {
        sql: SQL_SERVER_SEARCH.to_owned(),
        parameters,
        row_limit: Some(limit as usize),
        base_offset: None,
    }
}

/// A catalog row of a column.
#[derive(Debug)]
pub struct ColumnRow {
    pub name: Option<String>,
    pub data_type: Option<String>,
    pub nullable: Option<String>,
    pub ordinal: Option<i32>,
    pub comment: Option<String>,
    pub table_comment: Option<String>,
}

/// The record of a column.
pub open spec fn column_result(row: ColumnRow) -> Result<RecordModel, ErrorModel> {
    match required_text(row.name) {
        Err(error) => Err(error),
        Ok(name) => match required_text(row.data_type) {
            Err(error) => Err(error),
            Ok(data_type) => match required_text(row.nullable) {
                Err(error) => Err(error),
                Ok(nullable) => match row.ordinal {
                    None => Err(
                        protocol_failure("SQL Server returned a NULL column ordinal"@),
                    ),
                    Some(ordinal) => Ok(
                        record_of(
                            seq![("name"@, ValueModel::String(name))].push(
                                ("type"@, ValueModel::String(data_type)),
                            ).push(("nullable"@, ValueModel::Bool(nullable == "YES"@))).push(
                                ("ordinal"@, ValueModel::Int64(ordinal as i64)),
                            ).push(("comment"@, text_or_null(optional_text(row.comment)))),
                        ),
                    ),
                },
            },
        },
    }
}

/// The records of columns; the error of the first row that has one.
pub open spec fn columns_result(rows: Seq<ColumnRow>) -> Result<Seq<RecordModel>, ErrorModel>
    decreases rows.len(),
{
    if rows.len() == 0 {
        Ok(Seq::empty())
    } else {
        match columns_result(rows.drop_last()) {
            Err(error) => Err(error),
            Ok(before) => match column_result(rows.last()) {
                Err(error) => Err(error),
                Ok(last) => Ok(before.push(last)),
            },
        }
    }
}

/// Reads a catalog row of a column.
fn describe_column(row: &ColumnRow) -> (result: Result<DbRecord, ConnectorError>)
    ensures
        match (result, column_result(*row)) {
            (Ok(record), Ok(wanted)) => record@ == wanted,
            (Err(error), Err(wanted)) => error@ == wanted,
            _ => false,
        },
{
    let name = match required_tds_string(&row.name) {
        Err(error) => {
            return Err(error);
        },
        Ok(name) => name,
    };
    let data_type = match required_tds_string(&row.data_type) {
        Err(error) => {
            return Err(error);
        },
        Ok(data_type) => data_type,
    };
    let nullable = match required_tds_string(&row.nullable) {
        Err(error) => {
            return Err(error);
        },
        Ok(nullable) => nullable,
    };
    let ordinal: i32 = match row.ordinal {
        None => {
            return Err(protocol("SQL Server returned a NULL column ordinal"));
        },
        Some(ordinal) => ordinal,
    };
    let mut record = DbRecord::new();
    record.insert("name".to_owned(), DbValue::String(name));
    record.insert("type".to_owned(), DbValue::String(data_type));
    record.insert("nullable".to_owned(), DbValue::Bool(same(nullable.as_str(), "YES")));
    record.insert("ordinal".to_owned(), DbValue::Int64(ordinal as i64));
    record.insert("comment".to_owned(), optional_string_value(borrowed(&row.comment)));
    Ok(record)
}

/// An error in the first rows is the error of them all.
proof fn lemma_columns_fail_early(rows: Seq<ColumnRow>, count: int)
    requires
        0 <= count <= rows.len(),
        columns_result(rows.subrange(0, count)) is Err,
    ensures
        columns_result(rows) == columns_result(rows.subrange(0, count)),
    decreases rows.len(),
{
    if count == rows.len() {
        assert(rows.subrange(0, count) =~= rows);
    } else {
        assert(rows.drop_last().subrange(0, count) =~= rows.subrange(0, count));
        lemma_columns_fail_early(rows.drop_last(), count);
    }
}

/// Reads the catalog rows of columns.
fn describe_columns(rows: &Vec<ColumnRow>) -> (result: Result<Vec<DbRecord>, ConnectorError>)
    ensures
        match (result, columns_result(rows@)) {
            (Ok(list), Ok(wanted)) => records(list@) == wanted,
            (Err(error), Err(wanted)) => error@ == wanted,
            _ => false,
        },
{
    let mut fields: Vec<DbRecord> = Vec::new();
    let mut i: usize = 0;
    assert(rows@.subrange(0, 0) =~= Seq::<ColumnRow>::empty());
    while i < rows.len()
        invariant
            i <= rows@.len(),
            columns_result(rows@.subrange(0, i as int)) == Ok::<Seq<RecordModel>, ErrorModel>(
                records(fields@),
            ),
        decreases rows@.len() - i,
    {
        let ghost next = rows@.subrange(0, i + 1);
        assert(next.drop_last() =~= rows@.subrange(0, i as int));
        assert(next.last() == rows@[i as int]);
        match describe_column(&rows[i]) {
            Err(error) => {
                proof {
                    lemma_columns_fail_early(rows@, i + 1);
                }
                return Err(error);
            },
            Ok(record) => {
                fields.push(record);
            },
        }
        i = i + 1;
    }
    assert(rows@.subrange(0, i as int) =~= rows@);
    Ok(fields)
}

/// The description of a table that the catalog has columns of.
pub open spec fn tds_description(
    schema: Seq<char>,
    table: Seq<char>,
    rows: Seq<ColumnRow>,
    metadata: MetadataModel,
) -> Result<DescriptionModel, ErrorModel> {
    if rows.len() == 0 {
        Err(failure(ErrorCategory::NotFound, "SQL entity was not found"@))
    } else {
        match columns_result(rows) {
            Err(error) => Err(error),
            Ok(fields) => Ok(
                DescriptionModel {
                    entity: EntityModel {
                        id: schema + "."@ + table,
                        namespace: Some(schema),
                        name: table,
                        kind: "table_or_view"@,
                        comment: optional_text(rows[0].table_comment),
                    },
                    fields,
                    metadata: metadata_record(metadata),
                    truncated: false,
                    warnings: Seq::empty(),
                },
            ),
        }
    }
}

/// Describes a table by the rows of the catalog.
pub fn describe_tds_entity(
    schema: &str,
    table: &str,
    rows: &Vec<ColumnRow>,
    constraints: Vec<TdsConstraintColumn>,
    indexes: Vec<TdsIndexColumn>,
) -> (result: Result<EntityDescription, ConnectorError>)
    ensures
        is_description_result(
            result,
            tds_description(schema@, table@, rows@, tds_metadata(constraints@, indexes@)),
        ),
{
    if rows.len() == 0 {
        return Err(ConnectorError::new(ErrorCategory::NotFound, "SQL entity was not found"));
    }
    let fields = match describe_columns(rows) {
        Err(error) => {
            return Err(error);
        },
        Ok(fields) => fields,
    };
    let metadata = group_tds_relational_metadata(constraints, indexes).into_record();
    Ok(
        EntityDescription {
            entity: CatalogEntity {
                id: framed(schema, ".", table),
                namespace: Some(schema.to_owned()),
                name: table.to_owned(),
                kind: "table_or_view".to_owned(),
                comment: clone_optional(&rows[0].table_comment),
            },
            fields,
            metadata,
            truncated: false,
            warnings: Vec::new(),
        },
    )
}

/// A parameter as the TDS driver binds it.
#[derive(Debug)]
pub enum TdsParameter {
    Null,
    Bool(bool),
    Int(i64),
    Double(Double),
    Text(String),
    Date(DateParts),
    Time(TimeParts),
    /// A moment in the form of RFC 3339.
    Moment(String),
    /// The bytes of a UUID.
    Uuid(Vec<u8>),
    Bytes(Vec<u8>),
    /// An array, a document or a vector, bound as its JSON text.
    Encoded(DbValue),
}

/// What a [`TdsParameter`] is.
pub enum TdsParameterModel {
    Null,
    Bool(bool),
    Int(i64),
    Double(DoubleModel),
    Text(Seq<char>),
    Date(DateParts),
    Time(TimeParts),
    Moment(Seq<char>),
    Uuid(Seq<u8>),
    Bytes(Seq<u8>),
    Encoded(ValueModel),
}

impl View for TdsParameter {
    type V = TdsParameterModel;

    open spec fn view(&self) -> TdsParameterModel {
        match *self {
            TdsParameter::Null => TdsParameterModel::Null,
            TdsParameter::Bool(value) => TdsParameterModel::Bool(value),
            TdsParameter::Int(value) => TdsParameterModel::Int(value),
            TdsParameter::Double(value) => TdsParameterModel::Double(value@),
            TdsParameter::Text(value) => TdsParameterModel::Text(value@),
            TdsParameter::Date(value) => TdsParameterModel::Date(value),
            TdsParameter::Time(value) => TdsParameterModel::Time(value),
            TdsParameter::Moment(value) => TdsParameterModel::Moment(value@),
            TdsParameter::Uuid(value) => TdsParameterModel::Uuid(value@),
            TdsParameter::Bytes(value) => TdsParameterModel::Bytes(value@),
            TdsParameter::Encoded(value) => TdsParameterModel::Encoded(value@),
        }
    }
}

/// The value of a parameter in the TDS driver.
pub open spec fn tds_parameter(value: ValueModel) -> Result<TdsParameterModel, ErrorModel> {
    match value {
        ValueModel::Null => Ok(TdsParameterModel::Null),
        ValueModel::Bool(value) => Ok(TdsParameterModel::Bool(value)),
        ValueModel::Int64(value) => Ok(TdsParameterModel::Int(value)),
        ValueModel::UInt64(value) => if value <= i64::MAX {
            Ok(TdsParameterModel::Int(value as i64))
        } else {
            Err(invalid_request("SQL Server has no unsigned bigint parameter type"@))
        },
        ValueModel::Float64(value) => Ok(TdsParameterModel::Double(value)),
        ValueModel::Decimal(value) => Ok(TdsParameterModel::Text(value)),
        ValueModel::String(value) => Ok(TdsParameterModel::Text(value)),
        ValueModel::Date(text) => match date_of(text) {
            Some(date) => Ok(TdsParameterModel::Date(date)),
            None => Err(invalid_request("date parameter must use YYYY-MM-DD"@)),
        },
        ValueModel::Time(text) => match time_of(text) {
            Some(time) => Ok(TdsParameterModel::Time(time)),
            None => Err(invalid_request("time parameter must use HH:MM:SS[.fraction]"@)),
        },
        ValueModel::DateTime(text) => match moment_of(text) {
            Some(_) => Ok(TdsParameterModel::Moment(text)),
            None => Err(invalid_request("datetime parameter must use RFC 3339"@)),
        },
        ValueModel::Uuid(text) => match uuid_bytes(text) {
            Some(bytes) => Ok(TdsParameterModel::Uuid(bytes)),
            None => Err(invalid_request("UUID parameter is not a valid UUID"@)),
        },
        ValueModel::Binary(text) => match base64_bytes(text) {
            Some(bytes) => Ok(TdsParameterModel::Bytes(bytes)),
            None => Err(invalid_request("binary parameter is not valid base64"@)),
        },
        _ => Ok(TdsParameterModel::Encoded(value)),
    }
}

/// Whether a parameter is what is expected of it.
pub open spec fn is_parameter_result(
    result: Result<TdsParameter, ConnectorError>,
    expected: Result<TdsParameterModel, ErrorModel>,
) -> bool {
    match (result, expected) {
        (Ok(parameter), Ok(wanted)) => parameter@ == wanted,
        (Err(error), Err(wanted)) => error@ == wanted,
        _ => false,
    }
}

/// Binds one value.
pub fn bind_value(value: &DbValue) -> (result: Result<TdsParameter, ConnectorError>)
    ensures
        is_parameter_result(result, tds_parameter(value@)),
{
    match value {
        DbValue::Null => Ok(TdsParameter::Null),
        DbValue::Bool(value) => Ok(TdsParameter::Bool(*value)),
        DbValue::Int64(value) => Ok(TdsParameter::Int(*value)),
        DbValue::UInt64(value) => if *value <= 0x7fff_ffff_ffff_ffff {
            Ok(TdsParameter::Int(*value as i64))
        } else {
            Err(invalid("SQL Server has no unsigned bigint parameter type"))
        },
        DbValue::Float64(value) => Ok(TdsParameter::Double(value.copy())),
        DbValue::Decimal(value) => Ok(TdsParameter::Text(value.clone())),
        DbValue::String(value) => Ok(TdsParameter::Text(value.clone())),
        DbValue::Date(text) => match parse_date(text.as_str()) {
            Some(date) => Ok(TdsParameter::Date(date)),
            None => Err(invalid("date parameter must use YYYY-MM-DD")),
        },
        DbValue::Time(text) => match parse_time(text.as_str()) {
            Some(time) => Ok(TdsParameter::Time(time)),
            None => Err(invalid("time parameter must use HH:MM:SS[.fraction]")),
        },
        DbValue::DateTime(text) => match parse_moment(text.as_str()) {
            Some(_) => Ok(TdsParameter::Moment(text.clone())),
            None => Err(invalid("datetime parameter must use RFC 3339")),
        },
        DbValue::Uuid(text) => match parse_uuid(text.as_str()) {
            Some(bytes) => Ok(TdsParameter::Uuid(bytes)),
            None => Err(invalid("UUID parameter is not a valid UUID")),
        },
        DbValue::Binary(text) => match decode_base64(text.as_str()) {
            Some(bytes) => Ok(TdsParameter::Bytes(bytes)),
            None => Err(invalid("binary parameter is not valid base64")),
        },
        _ => Ok(TdsParameter::Encoded(value.copy())),
    }
}

/// The bound values; the error of the first that has one.
pub open spec fn tds_parameters(list: Seq<ValueModel>) -> Result<
    Seq<TdsParameterModel>,
    ErrorModel,
>
    decreases list.len(),
{
    if list.len() == 0 {
        Ok(Seq::empty())
    } else {
        match tds_parameters(list.drop_last()) {
            Err(error) => Err(error),
            Ok(before) => match tds_parameter(list.last()) {
                Err(error) => Err(error),
                Ok(last) => Ok(before.push(last)),
            },
        }
    }
}

/// What each of some parameters is.
pub open spec fn parameter_models(list: Seq<TdsParameter>) -> Seq<TdsParameterModel> {
    Seq::new(list.len(), |i: int| list[i]@)
}

/// An error among the first values is the error of them all.
proof fn lemma_parameters_fail_early(list: Seq<ValueModel>, count: int)
    requires
        0 <= count <= list.len(),
        tds_parameters(list.subrange(0, count)) is Err,
    ensures
        tds_parameters(list) == tds_parameters(list.subrange(0, count)),
    decreases list.len(),
{
    if count == list.len() {
        assert(list.subrange(0, count) =~= list);
    } else {
        assert(list.drop_last().subrange(0, count) =~= list.subrange(0, count));
        lemma_parameters_fail_early(list.drop_last(), count);
    }
}

/// Binds the values of a query.
pub fn make_query(parameters: &Vec<DbValue>) -> (result: Result<
    Vec<TdsParameter>,
    ConnectorError,
>)
    ensures
        match (result, tds_parameters(values(parameters@))) {
            (Ok(list), Ok(wanted)) => parameter_models(list@) == wanted,
            (Err(error), Err(wanted)) => error@ == wanted,
            _ => false,
        },
{
    let ghost all = values(parameters@);
    let mut result: Vec<TdsParameter> = Vec::new();
    let mut i: usize = 0;
    assert(all.subrange(0, 0) =~= Seq::<ValueModel>::empty());
    assert(parameter_models(result@) =~= Seq::<TdsParameterModel>::empty());
    while i < parameters.len()
        invariant
            i <= parameters@.len(),
            all == values(parameters@),
            tds_parameters(all.subrange(0, i as int)) == Ok::<Seq<TdsParameterModel>, ErrorModel>(
                parameter_models(result@),
            ),
        decreases parameters@.len() - i,
    {
        let ghost next = all.subrange(0, i + 1);
        assert(next.drop_last() =~= all.subrange(0, i as int));
        assert(next.last() == parameters@[i as int]@);
        let ghost before = result@;
        match bind_value(&parameters[i]) {
            Err(error) => {
                proof {
                    lemma_parameters_fail_early(all, i + 1);
                }
                return Err(error);
            },
            Ok(parameter) => {
                let ghost model = parameter@;
                result.push(parameter);
                assert(parameter_models(result@) =~= parameter_models(before).push(model));
            },
        }
        i = i + 1;
    }
    assert(all.subrange(0, i as int) =~= all);
    Ok(result)
}

/// A date or time that the driver returned.
#[derive(Debug)]
pub enum TdsTemporal<T> {
    Null,
    Value(T),
    /// The driver has a value and cannot give it.
    Inconsistent,
}

/// A field that the driver returned.
#[derive(Debug)]
pub enum TdsField {
    U8(Option<u8>),
    Int(Option<i64>),
    Double(Option<Double>),
    Bit(Option<bool>),
    Text(Option<String>),
    Guid(Option<String>),
    Binary(Option<Vec<u8>>),
    Numeric(Option<String>),
    Date(TdsTemporal<DateParts>),
    Time(TdsTemporal<TimeParts>),
    DateTime(TdsTemporal<(DateParts, TimeParts)>),
    /// A moment, in UTC.
    DateTimeOffset(TdsTemporal<(DateParts, TimeParts)>),
}

/// The value of a field.
pub open spec fn tds_field(field: TdsField) -> Result<ValueModel, ErrorModel> {
    match field {
        TdsField::U8(Some(value)) => Ok(ValueModel::UInt64(value as u64)),
        TdsField::Int(Some(value)) => Ok(ValueModel::Int64(value)),
        TdsField::Double(Some(value)) => Ok(ValueModel::Float64(value@)),
        TdsField::Bit(Some(value)) => Ok(ValueModel::Bool(value)),
        TdsField::Text(Some(value)) => Ok(ValueModel::String(value@)),
        TdsField::Guid(Some(value)) => Ok(ValueModel::Uuid(value@)),
        TdsField::Binary(Some(value)) => Ok(ValueModel::Binary(base64_text(value@))),
        TdsField::Numeric(Some(value)) => Ok(ValueModel::Decimal(value@)),
        TdsField::Date(TdsTemporal::Null) => Ok(ValueModel::Null),
        TdsField::Date(TdsTemporal::Value(date)) => Ok(ValueModel::Date(date_form(date))),
        TdsField::Date(TdsTemporal::Inconsistent) => Err(
            protocol_failure("SQL Server returned an inconsistent date value"@),
        ),
        TdsField::Time(TdsTemporal::Null) => Ok(ValueModel::Null),
        TdsField::Time(TdsTemporal::Value(time)) => Ok(ValueModel::Time(time_form(time))),
        TdsField::Time(TdsTemporal::Inconsistent) => Err(
            protocol_failure("SQL Server returned an inconsistent time value"@),
        ),
        TdsField::DateTime(TdsTemporal::Null) => Ok(ValueModel::Null),
        TdsField::DateTime(TdsTemporal::Value((date, time))) => Ok(
            ValueModel::DateTime(date_time_form(date, time)),
        ),
        TdsField::DateTime(TdsTemporal::Inconsistent) => Err(
            protocol_failure("SQL Server returned an inconsistent datetime value"@),
        ),
        TdsField::DateTimeOffset(TdsTemporal::Null) => Ok(ValueModel::Null),
        TdsField::DateTimeOffset(TdsTemporal::Value((date, time))) => Ok(
            ValueModel::DateTime(date_time_form(date, time) + "+00:00"@),
        ),
        TdsField::DateTimeOffset(TdsTemporal::Inconsistent) => Err(
            protocol_failure("SQL Server returned an inconsistent datetimeoffset value"@),
        ),
        _ => Ok(ValueModel::Null),
    }
}

/// Reads a field that the driver returned.
pub fn tds_value_to_db(field: &TdsField) -> (result: Result<DbValue, ConnectorError>)
    ensures
        match (result, tds_field(*field)) {
            (Ok(value), Ok(wanted)) => value@ == wanted,
            (Err(error), Err(wanted)) => error@ == wanted,
            _ => false,
        },
{
    match field {
        TdsField::U8(Some(value)) => Ok(DbValue::UInt64(*value as u64)),
        TdsField::Int(Some(value)) => Ok(DbValue::Int64(*value)),
        TdsField::Double(Some(value)) => Ok(DbValue::Float64(value.copy())),
        TdsField::Bit(Some(value)) => Ok(DbValue::Bool(*value)),
        TdsField::Text(Some(value)) => Ok(DbValue::String(value.clone())),
        TdsField::Guid(Some(value)) => Ok(DbValue::Uuid(value.clone())),
        TdsField::Binary(Some(value)) => Ok(DbValue::Binary(encode_base64(value.as_slice()))),
        TdsField::Numeric(Some(value)) => Ok(DbValue::Decimal(value.clone())),
        TdsField::Date(TdsTemporal::Null) => Ok(DbValue::Null),
        TdsField::Date(TdsTemporal::Value(date)) => Ok(DbValue::Date(write_date(*date))),
        TdsField::Date(TdsTemporal::Inconsistent) => Err(
            protocol("SQL Server returned an inconsistent date value"),
        ),
        TdsField::Time(TdsTemporal::Null) => Ok(DbValue::Null),
        TdsField::Time(TdsTemporal::Value(time)) => Ok(DbValue::Time(write_time(*time))),
        TdsField::Time(TdsTemporal::Inconsistent) => Err(
            protocol("SQL Server returned an inconsistent time value"),
        ),
        TdsField::DateTime(TdsTemporal::Null) => Ok(DbValue::Null),
        TdsField::DateTime(TdsTemporal::Value((date, time))) => Ok(
            DbValue::DateTime(write_date_time(*date, *time)),
        ),
        TdsField::DateTime(TdsTemporal::Inconsistent) => Err(
            protocol("SQL Server returned an inconsistent datetime value"),
        ),
        TdsField::DateTimeOffset(TdsTemporal::Null) => Ok(DbValue::Null),
        TdsField::DateTimeOffset(TdsTemporal::Value((date, time))) => {
            let mut text = write_date_time(*date, *time);
            text.append("+00:00");
            Ok(DbValue::DateTime(text))
        },
        TdsField::DateTimeOffset(TdsTemporal::Inconsistent) => Err(
            protocol("SQL Server returned an inconsistent datetimeoffset value"),
        ),
        _ => Ok(DbValue::Null),
    }
}

/// The record of a row: its columns by their names.
pub open spec fn tds_row(names: Seq<Seq<char>>, fields: Seq<TdsField>) -> Result<
    RecordModel,
    ErrorModel,
>
    decreases names.len(),
{
    if names.len() == 0 {
        Ok(Seq::empty())
    } else {
        let last = (names.len() - 1) as int;
        match tds_row(names.drop_last(), fields) {
            Err(error) => Err(error),
            Ok(record) => match tds_field(fields[last]) {
                Err(error) => Err(error),
                Ok(value) => Ok(with_entry(record, names[last], value)),
            },
        }
    }
}

/// Where some first columns have an error, the row has that one.
proof fn lemma_tds_row_fails_early(names: Seq<Seq<char>>, fields: Seq<TdsField>, count: int)
    requires
        0 <= count <= names.len(),
        tds_row(names.subrange(0, count), fields) is Err,
    ensures
        tds_row(names, fields) == tds_row(names.subrange(0, count), fields),
    decreases names.len(),
{
    if count == names.len() {
        assert(names.subrange(0, count) =~= names);
    } else {
        assert(names.drop_last().subrange(0, count) =~= names.subrange(0, count));
        lemma_tds_row_fails_early(names.drop_last(), fields, count);
    }
}

/// Reads a row: its columns by their names.
pub fn tds_row_to_record(names: &Vec<String>, fields: &Vec<TdsField>) -> (result: Result<
    DbRecord,
    ConnectorError,
>)
    requires
        names@.len() == fields@.len(),
    ensures
        match (result, tds_row(texts(names@), fields@)) {
            (Ok(record), Ok(wanted)) => record@ == wanted,
            (Err(error), Err(wanted)) => error@ == wanted,
            _ => false,
        },
{
    let ghost all = texts(names@);
    let mut record = DbRecord::new();
    let mut i: usize = 0;
    assert(all.subrange(0, 0) =~= Seq::<Seq<char>>::empty());
    while i < names.len()
        invariant
            i <= names@.len(),
            names@.len() == fields@.len(),
            all == texts(names@),
            tds_row(all.subrange(0, i as int), fields@) == Ok::<RecordModel, ErrorModel>(record@),
        decreases names@.len() - i,
    {
        let ghost next = all.subrange(0, i + 1);
        assert(next.drop_last() =~= all.subrange(0, i as int));
        assert(next[i as int] == names@[i as int]@);
        match tds_value_to_db(&fields[i]) {
            Err(error) => {
                proof {
                    lemma_tds_row_fails_early(all, fields@, i + 1);
                }
                return Err(error);
            },
            Ok(value) => {
                record.insert(names[i].clone(), value);
            },
        }
        i = i + 1;
    }
    assert(all.subrange(0, i as int) =~= all);
    Ok(record)
}

/// How the driver failed.
#[derive(Debug, Clone, Copy, PartialEq, Eq, Structural)]
pub enum TdsFailure {
    /// The server refused the request.
    Server { code: u32 },
    /// TLS failed.
    Tls,
    /// The connection failed or was sent elsewhere.
    Transport,
    Other,
}

/// The category of a server's error code.
pub open spec fn code_category(code: u32) -> ErrorCategory {
    if code == 18456 {
        ErrorCategory::Authentication
    } else if code == 229 || code == 230 || code == 262 {
        ErrorCategory::PermissionDenied
    } else if code == 208 {
        ErrorCategory::NotFound
    } else if code == 2601 || code == 2627 || code == 1205 {
        ErrorCategory::Conflict
    } else if code == 1222 {
        ErrorCategory::Timeout
    } else if code == 102 || code == 156 || code == 207 || code == 245 {
        ErrorCategory::InvalidRequest
    } else {
        ErrorCategory::Protocol
    }
}

/// The error of a failure of the driver.
pub open spec fn tds_error(cause: TdsFailure, write: bool) -> ErrorModel {
    match cause {
        TdsFailure::Server { code } => ErrorModel {
            code: Some(decimal(code as nat)),
            retryable: code == 1205 || code == 1222,
            ..failure(
                code_category(code),
                "SQL Server request failed with code "@ + decimal(code as nat),
            )
        },
        _ => {
            let transport = cause == TdsFailure::Tls || cause == TdsFailure::Transport;
            ErrorModel {
                retryable: transport && !write,
                phase: if cause == TdsFailure::Tls {
                    ErrorPhase::Tls
                } else {
                    ErrorPhase::Unspecified
                },
                ..failure(
                    if write && transport {
                        ErrorCategory::UnknownOutcome
                    } else if transport {
                        ErrorCategory::Unavailable
                    } else {
                        ErrorCategory::Protocol
                    },
                    "SQL Server TDS driver could not complete the request"@,
                )
            }
        },
    }
}

/// The error of a failure of the driver.
pub fn map_tds_error(cause: TdsFailure, write: bool) -> (result: ConnectorError)
    ensures
        result@ == tds_error(cause, write),
{
    match cause {
        TdsFailure::Server { code } => {
            let category = if code == 18456 {
                ErrorCategory::Authentication
            } else if code == 229 || code == 230 || code == 262 {
                ErrorCategory::PermissionDenied
            } else if code == 208 {
                ErrorCategory::NotFound
            } else if code == 2601 || code == 2627 || code == 1205 {
                ErrorCategory::Conflict
            } else if code == 1222 {
                ErrorCategory::Timeout
            } else if code == 102 || code == 156 || code == 207 || code == 245 {
                ErrorCategory::InvalidRequest
            } else {
                ErrorCategory::Protocol
            };
            let number = decimal_text(code as u64);
            let message = crate::model::appended(
                "SQL Server request failed with code ",
                number.as_str(),
            );
            ConnectorError::new(category, message.as_str()).with_code(number.as_str()).retryable(
                code == 1205 || code == 1222,
            )
        },
        _ => {
            let transport = cause == TdsFailure::Tls || cause == TdsFailure::Transport;
            let error = ConnectorError::new(
                if write && transport {
                    ErrorCategory::UnknownOutcome
                } else if transport {
                    ErrorCategory::Unavailable
                } else {
                    ErrorCategory::Protocol
                },
                "SQL Server TDS driver could not complete the request",
            ).retryable(transport && !write);
            if cause == TdsFailure::Tls {
                error.with_phase(ErrorPhase::Tls)
            } else {
                error
            }
        },
    }
}

} // verus!
