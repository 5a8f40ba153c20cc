//! The catalog of MySQL.
use crate::model::{
    entities, failure, framed, is_description_result, CatalogEntity, CatalogQuery, ConnectorError,
    DescriptionModel, EntityDescription, EntityModel, ErrorCategory, ErrorModel,
};
use crate::sql::grouping::{
    add_row, columns_of, grouped, groups, item_columns, optional_item, Group, GroupItem, GroupKey,
    GroupModel, ItemModel, KeyModel,
};
use crate::sql::metadata::{
    first_named, first_of, foreign_groups, foreign_keys, index_models, keys_have,
    lemma_with_row_keys, metadata_record, named_columns, named_groups, named_models, IndexMetadata,
    IndexModel, MetadataModel, RelationalMetadata,
};
use crate::sql::statement::{BuiltQuery, QueryModel};
use crate::text::{borrowed, lower, optional_str, optional_text, same, texts, to_lower};
use crate::value::{record_of, records, DbRecord, DbValue, RecordModel, ValueModel};
use vstd::prelude::*;

verus! {

broadcast use {
    crate::text::group_texts,
    crate::value::group_models,
    crate::sql::grouping::lemma_grouped_push,
};

/// A column of a constraint: the constraint's name and type, the column and its ordinal.
pub type ConstraintColumnRow = (String, String, String, u64);

/// A column of a foreign key: its name, the column, the referenced schema, table and column, and
/// the ordinal.
pub type ForeignKeyColumnRow = (String, String, String, String, String, u64);

/// A column of an index: its name, whether it is not unique, the column and its ordinal.
pub type IndexColumnRow = (String, u64, Option<String>, u64);

/// The key of a name.
pub open spec fn name_key(name: Seq<char>) -> KeyModel {
    KeyModel { parts: seq![name], flag: false }
}

/// A column without a reference.
pub open spec fn plain_item(ordinal: int, column: Seq<char>) -> ItemModel {
    ItemModel { ordinal, column, referenced: Seq::empty() }
}

/// The rows of the primary key, or of the other constraints.
pub open spec fn constraint_rows(rows: Seq<ConstraintColumnRow>, primary: bool) -> Seq<
    (KeyModel, Option<ItemModel>),
>
    decreases rows.len(),
{
    if rows.len() == 0 {
        Seq::empty()
    } else {
        let before = constraint_rows(rows.drop_last(), primary);
        let row = rows.last();
        if (row.1@ == "PRIMARY KEY"@) == primary {
            before.push((name_key(row.0@), Some(plain_item(row.3 as int, row.2@))))
        } else {
            before
        }
    }
}

/// The rows of the foreign keys.
pub open spec fn foreign_rows(rows: Seq<ForeignKeyColumnRow>) -> Seq<
    (KeyModel, Option<ItemModel>),
>
    decreases rows.len(),
{
    if rows.len() == 0 {
        Seq::empty()
    } else {
        let row = rows.last();
        foreign_rows(rows.drop_last()).push(
            (
                KeyModel { parts: seq![row.0@].push(row.2@).push(row.3@), flag: false },
                Some(ItemModel { ordinal: row.5 as int, column: row.1@, referenced: row.4@ }),
            ),
        )
    }
}

/// The rows of the indexes. An index over an expression has a row without a column.
pub open spec fn index_rows(rows: Seq<IndexColumnRow>) -> Seq<(KeyModel, Option<ItemModel>)>
    decreases rows.len(),
{
    if rows.len() == 0 {
        Seq::empty()
    } else {
        let row = rows.last();
        index_rows(rows.drop_last()).push(
            (
                name_key(row.0@),
                match row.2 {
                    Some(column) => Some(plain_item(row.3 as int, column@)),
                    None => None,
                },
            ),
        )
    }
}

/// Whether all rows of an index say that it is unique.
pub open spec fn is_unique(rows: Seq<IndexColumnRow>, name: Seq<char>) -> bool {
    forall|i: int| 0 <= i < rows.len() && (#[trigger] rows[i]).0@ == name ==> rows[i].1 == 0
}

/// The indexes of some groups.
pub open spec fn index_groups(list: Seq<GroupModel>, rows: Seq<IndexColumnRow>) -> Seq<
    IndexModel,
> {
    Seq::new(
        list.len(),
        |i: int|
            IndexModel {
                name: list[i].key.parts[0],
                columns: item_columns(list[i].items),
                unique: is_unique(rows, list[i].key.parts[0]),
            },
    )
}

/// The metadata of a table, from the rows of the catalog.
pub open spec fn mysql_metadata(
    constraints: Seq<ConstraintColumnRow>,
    foreign: Seq<ForeignKeyColumnRow>,
    indexes: Seq<IndexColumnRow>,
) -> MetadataModel {
    MetadataModel {
        primary_key: first_named(grouped(constraint_rows(constraints, true))),
        foreign_keys: foreign_groups(grouped(foreign_rows(foreign))),
        unique_constraints: named_groups(grouped(constraint_rows(constraints, false))),
        indexes: index_groups(grouped(index_rows(indexes)), indexes),
    }
}

/// The key of a name.
pub fn key_of_name(name: &str) -> (result: GroupKey)
    ensures
        result@ == name_key(name@),
{
    let mut parts: Vec<String> = Vec::new();
    parts.push(name.to_owned());
    GroupKey { parts, flag: false }
}

/// A column without a reference.
pub fn item_of_column(ordinal: i128, column: &str) -> (result: GroupItem)
    ensures
        result@ == plain_item(ordinal as int, column@),
{
    GroupItem { ordinal, column: column.to_owned(), referenced: String::new() }
}

/// Groups the columns of the primary key, or of the other constraints.
fn group_constraints(rows: &Vec<ConstraintColumnRow>, primary: bool) -> (result: Vec<Group>)
    ensures
        groups(result@) == grouped(constraint_rows(rows@, primary)),
        keys_have(groups(result@), 1),
{
    let mut result: Vec<Group> = Vec::new();
    let mut i: usize = 0;
    assert(rows@.subrange(0, 0) =~= Seq::<ConstraintColumnRow>::empty());
    assert(groups(result@) =~= Seq::<GroupModel>::empty());
    while i < rows.len()
        invariant
            i <= rows@.len(),
            groups(result@) == grouped(constraint_rows(rows@.subrange(0, i as int), primary)),
            keys_have(groups(result@), 1),
        decreases rows@.len() - i,
    {
        let row = &rows[i];
        let ghost next = rows@.subrange(0, i + 1);
        assert(next.drop_last() =~= rows@.subrange(0, i as int));
        assert(next.last() == *row);
        if same(row.1.as_str(), "PRIMARY KEY") == primary {
            let key = key_of_name(row.0.as_str());
            let item = item_of_column(row.3 as i128, row.2.as_str());
            proof {
                lemma_with_row_keys(groups(result@), key@, Some(item@), 1);
            }
            add_row(&mut result, key, Some(item));
        }
        i = i + 1;
    }
    assert(rows@.subrange(0, i as int) =~= rows@);
    result
}

/// Groups the columns of the foreign keys.
fn group_foreign_keys(rows: &Vec<ForeignKeyColumnRow>) -> (result: Vec<Group>)
    ensures
        groups(result@) == grouped(foreign_rows(rows@)),
        keys_have(groups(result@), 3),
{
    let mut result: Vec<Group> = Vec::new();
    let mut i: usize = 0;
    assert(rows@.subrange(0, 0) =~= Seq::<ForeignKeyColumnRow>::empty());
    assert(groups(result@) =~= Seq::<GroupModel>::empty());
    while i < rows.len()
        invariant
            i <= rows@.len(),
            groups(result@) == grouped(foreign_rows(rows@.subrange(0, i as int))),
            keys_have(groups(result@), 3),
        decreases rows@.len() - i,
    {
        let row = &rows[i];
        let ghost next = rows@.subrange(0, i + 1);
        assert(next.drop_last() =~= rows@.subrange(0, i as int));
        assert(next.last() == *row);
        let mut parts: Vec<String> = Vec::new();
        parts.push(row.0.clone());
        parts.push(row.2.clone());
        parts.push(row.3.clone());
        let key = GroupKey { parts, flag: false };
        let item = GroupItem {
            ordinal: row.5 as i128,
            column: row.1.clone(),
            referenced: row.4.clone(),
        };
        proof {
            lemma_with_row_keys(groups(result@), key@, Some(item@), 3);
        }
        add_row(&mut result, key, Some(item));
        i = i + 1;
    }
    assert(rows@.subrange(0, i as int) =~= rows@);
    result
}

/// Groups the columns of the indexes.
fn group_indexes(rows: &Vec<IndexColumnRow>) -> (result: Vec<Group>)
    ensures
        groups(result@) == grouped(index_rows(rows@)),
        keys_have(groups(result@), 1),
{
    let mut result: Vec<Group> = Vec::new();
    let mut i: usize = 0;
    assert(rows@.subrange(0, 0) =~= Seq::<IndexColumnRow>::empty());
    assert(groups(result@) =~= Seq::<GroupModel>::empty());
    while i < rows.len()
        invariant
            i <= rows@.len(),
            groups(result@) == grouped(index_rows(rows@.subrange(0, i as int))),
            keys_have(groups(result@), 1),
        decreases rows@.len() - i,
    {
        let row = &rows[i];
        let ghost next = rows@.subrange(0, i + 1);
        assert(next.drop_last() =~= rows@.subrange(0, i as int));
        assert(next.last() == *row);
        let key = key_of_name(row.0.as_str());
        let item = match &row.2 {
            Some(column) => Some(item_of_column(row.3 as i128, column.as_str())),
            None => None,
        };
        proof {
            lemma_with_row_keys(groups(result@), key@, optional_item(item), 1);
        }
        add_row(&mut result, key, item);
        i = i + 1;
    }
    assert(rows@.subrange(0, i as int) =~= rows@);
    result
}

/// Whether all rows of an index say that it is unique.
fn unique_index(rows: &Vec<IndexColumnRow>, name: &str) -> (result: bool)
    ensures
        result == is_unique(rows@, name@),
{
    let mut i: usize = 0;
    while i < rows.len()
        invariant
            i <= rows@.len(),
            forall|j: int| 0 <= j < i && (#[trigger] rows@[j]).0@ == name@ ==> rows@[j].1 == 0,
        decreases rows@.len() - i,
    {
        if same(rows[i].0.as_str(), name) && rows[i].1 != 0 {
            return false;
        }
        i = i + 1;
    }
    true
}

/// Assembles the metadata of a table from the rows of the catalog: composite keys and indexes
/// with their columns in the order of the ordinals.
pub fn assemble_mysql_metadata(
    constraints: Vec<ConstraintColumnRow>,
    foreign: Vec<ForeignKeyColumnRow>,
    indexes: Vec<IndexColumnRow>,
) -> (result: RelationalMetadata)
    ensures
        result@ == mysql_metadata(constraints@, foreign@, indexes@),
{
    let primary = named_columns(&group_constraints(&constraints, true));
    assert(primary@.len() > 0 ==> named_models(primary@)[0] == primary@[0]@);
    assert(named_models(primary@).len() == primary@.len());
    let primary_key = first_of(primary);
    let unique_constraints = named_columns(&group_constraints(&constraints, false));
    let foreign_list = foreign_keys(&group_foreign_keys(&foreign));
    let index_list = group_indexes(&indexes);
    let mut index_metadata: Vec<IndexMetadata> = Vec::new();
    let mut i: usize = 0;
    while i < index_list.len()
        invariant
            i <= index_list@.len(),
            keys_have(groups(index_list@), 1),
            index_metadata@.len() == i,
            forall|j: int|
                0 <= j < i ==> (#[trigger] index_metadata@[j])@ == index_groups(
                    groups(index_list@),
                    indexes@,
                )[j],
        decreases index_list@.len() - i,
    {
        let group = &index_list[i];
        assert(groups(index_list@)[i as int] == group@);
        assert(texts(group.key.parts@).len() == 1);
        assert(texts(group.key.parts@)[0] == group.key.parts@[0]@);
        let name = group.key.parts[0].as_str();
        index_metadata.push(
            IndexMetadata {
                name: name.to_owned(),
                columns: columns_of(&group.items),
                unique: unique_index(&indexes, name),
            },
        );
        i = i + 1;
    }
    assert(index_models(index_metadata@) =~= index_groups(groups(index_list@), indexes@));
    RelationalMetadata {
        primary_key,
        foreign_keys: foreign_list,
        unique_constraints,
        indexes: index_metadata,
    }
}

/// The statement that searches the catalog.
pub const MYSQL_SEARCH: &'static str =
    "SELECT T.TABLE_SCHEMA, T.TABLE_NAME, T.TABLE_TYPE FROM information_schema.tables AS \
    T WHERE (? IS NULL OR T.TABLE_SCHEMA = ?) AND (? IS NULL OR T.TABLE_NAME LIKE ? OR \
    EXISTS (SELECT 1 FROM information_schema.columns AS C WHERE C.TABLE_SCHEMA = \
    T.TABLE_SCHEMA AND C.TABLE_NAME = T.TABLE_NAME AND C.COLUMN_NAME LIKE ?)) ORDER BY \
    T.TABLE_SCHEMA, T.TABLE_NAME LIMIT ? OFFSET ?";

/// The value of an optional text.
pub open spec fn text_or_null(text: Option<Seq<char>>) -> ValueModel {
    match text {
        Some(text) => ValueModel::String(text),
        None => ValueModel::Null,
    }
}

/// The pattern that finds a text anywhere.
pub open spec fn anywhere(text: Option<Seq<char>>) -> Option<Seq<char>> {
    match text {
        Some(text) => Some("%"@ + text + "%"@),
        None => None,
    }
}

/// The namespace of a catalog search: that of the query, or else the profile's database.
pub open spec fn namespace_or(
    namespace: Option<Seq<char>>,
    database: Option<Seq<char>>,
) -> Option<Seq<char>> {
    match namespace {
        Some(namespace) => Some(namespace),
        None => database,
    }
}

/// The values of a catalog search.
pub open spec fn mysql_catalog_values(
    query: CatalogQuery,
    database: Option<Seq<char>>,
    limit: u32,
    offset: u64,
) -> Seq<ValueModel> {
    let namespace = text_or_null(namespace_or(optional_text(query.namespace), database));
    let pattern = text_or_null(anywhere(optional_text(query.pattern)));
    seq![namespace].push(namespace).push(pattern).push(pattern).push(pattern).push(
        ValueModel::UInt64(limit as u64),
    ).push(ValueModel::UInt64(offset))
}

/// The value of an optional text.
pub fn optional_string_value(text: Option<&str>) -> (result: DbValue)
    ensures
        result@ == text_or_null(optional_str(text)),
{
    match text {
        Some(text) => DbValue::String(text.to_owned()),
        None => DbValue::Null,
    }
}

/// The pattern that finds a text anywhere.
pub fn pattern_anywhere(text: &Option<String>) -> (result: Option<String>)
    ensures
        optional_text(result) == anywhere(optional_text(*text)),
{
    match text {
        Some(text) => Some(framed("%", text.as_str(), "%")),
        None => None,
    }
}

/// Builds the statement that searches the catalog.
pub fn mysql_catalog_query(
    query: &CatalogQuery,
    database: Option<&str>,
    limit: u32,
    offset: u64,
) -> (result: BuiltQuery)
    ensures
        result@ == (QueryModel {
            sql: MYSQL_SEARCH@,
            parameters: mysql_catalog_values(*query, optional_str(database), limit, offset),
            row_limit: None,
            base_offset: None,
        }),
{
    let namespace = match &query.namespace {
        Some(namespace) => Some(namespace.as_str()),
        None => database,
    };
    let pattern = pattern_anywhere(&query.pattern);
    let mut parameters: Vec<DbValue> = Vec::new();
    parameters.push(optional_string_value(namespace));
    parameters.push(optional_string_value(namespace));
    parameters.push(optional_string_value(borrowed(&pattern)));
    parameters.push(optional_string_value(borrowed(&pattern)));
    parameters.push(optional_string_value(borrowed(&pattern)));
    parameters.push(DbValue::UInt64(limit as u64));
    parameters.push(DbValue::UInt64(offset));
    BuiltQuery {
        sql: MYSQL_SEARCH.to_owned(),
        parameters,
        row_limit: None,
        base_offset: None,
    }
}

/// The entity of a catalog row.
pub open spec fn table_entity(
    namespace: Seq<char>,
    name: Seq<char>,
    kind: Seq<char>,
) -> EntityModel {
    EntityModel {
        id: namespace + "."@ + name,
        namespace: Some(namespace),
        name,
        kind: lower(kind),
        comment: None,
    }
}

/// The entity of a catalog row.
pub fn entity_of(namespace: &str, name: &str, kind: &str) -> (result: CatalogEntity)
    ensures
        result@ == table_entity(namespace@, name@, kind@),
{
    CatalogEntity {
        id: framed(namespace, ".", name),
        namespace: Some(namespace.to_owned()),
        name: name.to_owned(),
        kind: to_lower(kind),
        comment: None,
    }
}

/// The entities of some catalog rows.
pub open spec fn table_entities(rows: Seq<(String, String, String)>) -> Seq<EntityModel> {
    Seq::new(rows.len(), |i: int| table_entity(rows[i].0@, rows[i].1@, rows[i].2@))
}

/// The entities of catalog rows: namespace, name and kind.
pub fn catalog_entities(rows: &Vec<(String, String, String)>) -> (result: Vec<CatalogEntity>)
    ensures
        entities(result@) == table_entities(rows@),
{
    let mut result: Vec<CatalogEntity> = Vec::new();
    let mut i: usize = 0;
    while i < rows.len()
        invariant
            i <= rows@.len(),
            result@.len() == i,
            forall|j: int| 0 <= j < i ==> (#[trigger] result@[j])@ == table_entities(rows@)[j],
        decreases rows@.len() - i,
    {
        let row = &rows[i];
        result.push(entity_of(row.0.as_str(), row.1.as_str(), row.2.as_str()));
        i = i + 1;
    }
    assert(entities(result@) =~= table_entities(rows@));
    result
}

/// A column of a table: its name, type, whether it is nullable, its ordinal and its comment.
pub type ColumnRow = (String, String, String, u64, Option<String>);

/// A text that is not empty.
pub open spec fn filled_text(text: Option<Seq<char>>) -> Option<Seq<char>> {
    match text {
        Some(text) if text.len() > 0 => Some(text),
        _ => None,
    }
}

/// The record of a column.
pub open spec fn column_record(row: ColumnRow) -> RecordModel {
    record_of(
        seq![("name"@, ValueModel::String(row.0@))].push(
            ("type"@, ValueModel::String(row.1@)),
        ).push(("nullable"@, ValueModel::Bool(row.2@ == "YES"@))).push(
            ("ordinal"@, ValueModel::UInt64(row.3)),
        ).push(("comment"@, text_or_null(filled_text(optional_text(row.4))))),
    )
}

/// The records of columns.
pub open spec fn column_records(rows: Seq<ColumnRow>) -> Seq<RecordModel> {
    Seq::new(rows.len(), |i: int| column_record(rows[i]))
}

/// A text that is not empty.
pub fn without_empty(text: &Option<String>) -> (result: Option<String>)
    ensures
        optional_text(result) == filled_text(optional_text(*text)),
{
    match text {
        Some(text) => if text.as_str().is_empty() {
            None
        } else {
            Some(text.clone())
        },
        None => None,
    }
}

/// The record of a column.
fn describe_column(row: &ColumnRow) -> (result: DbRecord)
    ensures
        result@ == column_record(*row),
{
    let comment = without_empty(&row.4);
    let mut record = DbRecord::new();
    record.insert("name".to_owned(), DbValue::String(row.0.clone()));
    record.insert("type".to_owned(), DbValue::String(row.1.clone()));
    record.insert("nullable".to_owned(), DbValue::Bool(same(row.2.as_str(), "YES")));
    record.insert("ordinal".to_owned(), DbValue::UInt64(row.3));
    record.insert("comment".to_owned(), optional_string_value(borrowed(&comment)));
    record
}

/// The description of a table that the catalog has a row of.
pub open spec fn mysql_description(
    database: Seq<char>,
    table: Seq<char>,
    found: Option<(String, Option<String>)>,
    columns: Seq<ColumnRow>,
    metadata: MetadataModel,
) -> Result<DescriptionModel, ErrorModel> {
    match found {
        None => Err(failure(ErrorCategory::NotFound, "SQL entity was not found"@)),
        Some((kind, comment)) => Ok(
            DescriptionModel {
                entity: EntityModel {
                    id: database + "."@ + table,
                    namespace: Some(database),
                    name: table,
                    kind: lower(kind@),
                    comment: filled_text(optional_text(comment)),
                },
                fields: column_records(columns),
                metadata: metadata_record(metadata),
                truncated: false,
                warnings: Seq::empty(),
            },
        ),
    }
}

/// Describes a table by the rows of the catalog: its type and comment, its columns, and the
/// columns of its constraints, foreign keys and indexes.
pub fn describe_mysql_entity(
    database: &str,
    table: &str,
    found: Option<(String, Option<String>)>,
    columns: &Vec<ColumnRow>,
    constraints: Vec<ConstraintColumnRow>,
    foreign: Vec<ForeignKeyColumnRow>,
    indexes: Vec<IndexColumnRow>,
) -> (result: Result<EntityDescription, ConnectorError>)
    ensures
        is_description_result(
            result,
            mysql_description(
                database@,
                table@,
                found,
                columns@,
                mysql_metadata(constraints@, foreign@, indexes@),
            ),
        ),
{
    let (kind, comment) = match found {
        None => {
            return Err(
                ConnectorError::new(ErrorCategory::NotFound, "SQL entity was not found"),
            );
        },
        Some(row) => row,
    };
    let mut fields: Vec<DbRecord> = Vec::new();
    let mut i: usize = 0;
    while i < columns.len()
        invariant
            i <= columns@.len(),
            fields@.len() == i,
            forall|j: int| 0 <= j < i ==> (#[trigger] fields@[j])@ == column_record(columns@[j]),
        decreases columns@.len() - i,
    {
        fields.push(describe_column(&columns[i]));
        i = i + 1;
    }
    assert(records(fields@) =~= column_records(columns@));
    let metadata = assemble_mysql_metadata(constraints, foreign, indexes).into_record();
    Ok(
        EntityDescription {
            entity: CatalogEntity {
                id: framed(database, ".", table),
                namespace: Some(database.to_owned()),
                name: table.to_owned(),
                kind: to_lower(kind.as_str()),
                comment: without_empty(&comment),
            },
            fields,
            metadata,
            truncated: false,
            warnings: Vec::new(),
        },
    )
}

} // verus!
