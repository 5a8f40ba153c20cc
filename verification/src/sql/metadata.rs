//! Keys, constraints and indexes of a table.
use crate::model::framed;
use crate::sql::grouping::{
    columns_of, groups, item_columns, item_references, key_before, references_of, with_row, Group,
    GroupModel, ItemModel, KeyModel,
};
use crate::text::texts;
use crate::value::{record_of, values, DbRecord, DbValue, RecordModel, ValueModel};
use vstd::prelude::*;

verus! {

broadcast use {crate::text::group_texts, crate::value::group_models};

/// A named list of columns.
#[derive(Debug)]
pub struct NamedColumns {
    pub name: String,
    pub columns: Vec<String>,
}

/// A foreign key.
#[derive(Debug)]
pub struct ForeignKeyMetadata {
    pub name: String,
    pub columns: Vec<String>,
    pub referenced_entity: String,
    pub referenced_columns: Vec<String>,
}

/// An index.
#[derive(Debug)]
pub struct IndexMetadata {
    pub name: String,
    pub columns: Vec<String>,
    pub unique: bool,
}

/// The keys, constraints and indexes of a table.
#[derive(Debug)]
pub struct RelationalMetadata {
    pub primary_key: Option<NamedColumns>,
    pub foreign_keys: Vec<ForeignKeyMetadata>,
    pub unique_constraints: Vec<NamedColumns>,
    pub indexes: Vec<IndexMetadata>,
}

/// What a [`NamedColumns`] is.
pub struct NamedModel {
    pub name: Seq<char>,
    pub columns: Seq<Seq<char>>,
}

/// What a [`ForeignKeyMetadata`] is.
pub struct ForeignKeyModel {
    pub name: Seq<char>,
    pub columns: Seq<Seq<char>>,
    pub referenced_entity: Seq<char>,
    pub referenced_columns: Seq<Seq<char>>,
}

/// What an [`IndexMetadata`] is.
pub struct IndexModel {
    pub name: Seq<char>,
    pub columns: Seq<Seq<char>>,
    pub unique: bool,
}

/// What a [`RelationalMetadata`] is.
pub struct MetadataModel {
    pub primary_key: Option<NamedModel>,
    pub foreign_keys: Seq<ForeignKeyModel>,
    pub unique_constraints: Seq<NamedModel>,
    pub indexes: Seq<IndexModel>,
}

impl View for NamedColumns {
    type V = NamedModel;

    open spec fn view(&self) -> NamedModel {
        NamedModel { name: self.name@, columns: texts(self.columns@) }
    }
}

impl View for ForeignKeyMetadata {
    type V = ForeignKeyModel;

    open spec fn view(&self) -> ForeignKeyModel {
        ForeignKeyModel {
            name: self.name@,
            columns: texts(self.columns@),
            referenced_entity: self.referenced_entity@,
            referenced_columns: texts(self.referenced_columns@),
        }
    }
}

impl View for IndexMetadata {
    type V = IndexModel;

    open spec fn view(&self) -> IndexModel {
        IndexModel { name: self.name@, columns: texts(self.columns@), unique: self.unique }
    }
}

/// What an optional key is.
pub open spec fn optional_key(key: Option<NamedColumns>) -> Option<NamedModel> {
    match key {
        Some(key) => Some(key@),
        None => None,
    }
}

/// What each of some constraints is.
pub open spec fn named_models(list: Seq<NamedColumns>) -> Seq<NamedModel> {
    Seq::new(list.len(), |i: int| list[i]@)
}

/// What each of some foreign keys is.
pub open spec fn foreign_models(list: Seq<ForeignKeyMetadata>) -> Seq<ForeignKeyModel> {
    Seq::new(list.len(), |i: int| list[i]@)
}

/// What each of some indexes is.
pub open spec fn index_models(list: Seq<IndexMetadata>) -> Seq<IndexModel> {
    Seq::new(list.len(), |i: int| list[i]@)
}

impl View for RelationalMetadata {
    type V = MetadataModel;

    open spec fn view(&self) -> MetadataModel {
        MetadataModel {
            primary_key: optional_key(self.primary_key),
            foreign_keys: foreign_models(self.foreign_keys@),
            unique_constraints: named_models(self.unique_constraints@),
            indexes: index_models(self.indexes@),
        }
    }
}

/// The array value of some texts.
pub open spec fn text_array(list: Seq<Seq<char>>) -> ValueModel {
    ValueModel::Array(Seq::new(list.len(), |i: int| ValueModel::String(list[i])))
}

/// The document value of a named list of columns.
pub open spec fn named_value(key: NamedModel) -> ValueModel {
    ValueModel::Document(
        record_of(
            seq![("name"@, ValueModel::String(key.name))].push(("columns"@, text_array(key.columns))),
        ),
    )
}

/// The document value of a foreign key.
pub open spec fn foreign_value(key: ForeignKeyModel) -> ValueModel {
    ValueModel::Document(
        record_of(
            seq![("name"@, ValueModel::String(key.name))].push(
                ("columns"@, text_array(key.columns)),
            ).push(("referenced_entity"@, ValueModel::String(key.referenced_entity))).push(
                ("referenced_columns"@, text_array(key.referenced_columns)),
            ),
        ),
    )
}

/// The document value of an index.
pub open spec fn index_value(index: IndexModel) -> ValueModel {
    ValueModel::Document(
        record_of(
            seq![("name"@, ValueModel::String(index.name))].push(
                ("columns"@, text_array(index.columns)),
            ).push(("unique"@, ValueModel::Bool(index.unique))),
        ),
    )
}

/// The record of a table's metadata.
pub open spec fn metadata_record(metadata: MetadataModel) -> RecordModel {
    record_of(
        seq![(
                "primary_key"@,
                match metadata.primary_key {
                    Some(key) => named_value(key),
                    None => ValueModel::Null,
                },
            )].push((
                "foreign_keys"@,
                ValueModel::Array(
                    Seq::new(
                        metadata.foreign_keys.len(),
                        |i: int| foreign_value(metadata.foreign_keys[i]),
                    ),
                ),
            )).push((
                "unique_constraints"@,
                ValueModel::Array(
                    Seq::new(
                        metadata.unique_constraints.len(),
                        |i: int| named_value(metadata.unique_constraints[i]),
                    ),
                ),
            )).push((
                "indexes"@,
                ValueModel::Array(
                    Seq::new(
                        metadata.indexes.len(),
                        |i: int| index_value(metadata.indexes[i]),
                    ),
                ),
            )),
    )
}

/// The array value of some texts.
fn string_array(list: Vec<String>) -> (result: DbValue)
    ensures
        result@ == text_array(texts(list@)),
{
    let mut result: Vec<DbValue> = Vec::new();
    let mut i: usize = 0;
    while i < list.len()
        invariant
            i <= list@.len(),
            result@.len() == i,
            forall|j: int|
                0 <= j < i ==> (#[trigger] result@[j])@ == ValueModel::String(list@[j]@),
        decreases list@.len() - i,
    {
        result.push(DbValue::String(list[i].clone()));
        i = i + 1;
    }
    assert(values(result@) =~= Seq::new(
        texts(list@).len(),
        |i: int| ValueModel::String(texts(list@)[i]),
    ));
    DbValue::Array(result)
}

/// The document value of a named list of columns.
fn named_columns_value(key: NamedColumns) -> (result: DbValue)
    ensures
        result@ == named_value(key@),
{
    let mut record = DbRecord::new();
    record.insert("name".to_owned(), DbValue::String(key.name));
    record.insert("columns".to_owned(), string_array(key.columns));
    DbValue::Document(record)
}

/// The document value of a foreign key.
fn foreign_key_value(key: ForeignKeyMetadata) -> (result: DbValue)
    ensures
        result@ == foreign_value(key@),
{
    let mut record = DbRecord::new();
    record.insert("name".to_owned(), DbValue::String(key.name));
    record.insert("columns".to_owned(), string_array(key.columns));
    record.insert("referenced_entity".to_owned(), DbValue::String(key.referenced_entity));
    record.insert("referenced_columns".to_owned(), string_array(key.referenced_columns));
    DbValue::Document(record)
}

/// The document value of an index.
fn index_metadata_value(index: IndexMetadata) -> (result: DbValue)
    ensures
        result@ == index_value(index@),
{
    let mut record = DbRecord::new();
    record.insert("name".to_owned(), DbValue::String(index.name));
    record.insert("columns".to_owned(), string_array(index.columns));
    record.insert("unique".to_owned(), DbValue::Bool(index.unique));
    DbValue::Document(record)
}

impl RelationalMetadata {
    /// The record of a table's metadata.
    pub fn into_record(self) -> (result: DbRecord)
        ensures
            result@ == metadata_record(self@),
    {
        let ghost model = self@;
        let primary_key = match self.primary_key {
            Some(key) => named_columns_value(key),
            None => DbValue::Null,
        };
        let mut pending_keys = self.foreign_keys;
        let ghost all_keys = pending_keys@;
        let mut keys: Vec<DbValue> = Vec::new();
        while pending_keys.len() > 0
            invariant
                pending_keys@ == all_keys.subrange(keys@.len() as int, all_keys.len() as int),
                keys@.len() <= all_keys.len(),
                forall|j: int|
                    0 <= j < keys@.len() ==> (#[trigger] keys@[j])@ == foreign_value(all_keys[j]@),
            decreases pending_keys@.len(),
        {
            let key = pending_keys.remove(0);
            keys.push(foreign_key_value(key));
            assert(pending_keys@ =~= all_keys.subrange(keys@.len() as int, all_keys.len() as int));
        }
        assert(values(keys@) =~= Seq::new(
            model.foreign_keys.len(),
            |i: int| foreign_value(model.foreign_keys[i]),
        ));
        let mut pending_constraints = self.unique_constraints;
        let ghost all_constraints = pending_constraints@;
        let mut constraints: Vec<DbValue> = Vec::new();
        while pending_constraints.len() > 0
            invariant
                pending_constraints@ == all_constraints.subrange(
                    constraints@.len() as int,
                    all_constraints.len() as int,
                ),
                constraints@.len() <= all_constraints.len(),
                forall|j: int|
                    0 <= j < constraints@.len() ==> (#[trigger] constraints@[j])@ == named_value(
                        all_constraints[j]@,
                    ),
            decreases pending_constraints@.len(),
        {
            let key = pending_constraints.remove(0);
            constraints.push(named_columns_value(key));
            assert(pending_constraints@ =~= all_constraints.subrange(
                constraints@.len() as int,
                all_constraints.len() as int,
            ));
        }
        assert(values(constraints@) =~= Seq::new(
            model.unique_constraints.len(),
            |i: int| named_value(model.unique_constraints[i]),
        ));
        let mut pending_indexes = self.indexes;
        let ghost all_indexes = pending_indexes@;
        let mut indexes: Vec<DbValue> = Vec::new();
        while pending_indexes.len() > 0
            invariant
                pending_indexes@ == all_indexes.subrange(
                    indexes@.len() as int,
                    all_indexes.len() as int,
                ),
                indexes@.len() <= all_indexes.len(),
                forall|j: int|
                    0 <= j < indexes@.len() ==> (#[trigger] indexes@[j])@ == index_value(
                        all_indexes[j]@,
                    ),
            decreases pending_indexes@.len(),
        {
            let index = pending_indexes.remove(0);
            indexes.push(index_metadata_value(index));
            assert(pending_indexes@ =~= all_indexes.subrange(
                indexes@.len() as int,
                all_indexes.len() as int,
            ));
        }
        assert(values(indexes@) =~= Seq::new(
            model.indexes.len(),
            |i: int| index_value(model.indexes[i]),
        ));
        let mut record = DbRecord::new();
        record.insert("primary_key".to_owned(), primary_key);
        record.insert("foreign_keys".to_owned(), DbValue::Array(keys));
        record.insert("unique_constraints".to_owned(), DbValue::Array(constraints));
        record.insert("indexes".to_owned(), DbValue::Array(indexes));
        record
    }
}

/// The constraints of some groups: the name is the first text of the key.
pub open spec fn named_groups(list: Seq<GroupModel>) -> Seq<NamedModel> {
    Seq::new(
        list.len(),
        |i: int| NamedModel { name: list[i].key.parts[0], columns: item_columns(list[i].items) },
    )
}

/// The primary key of some groups: the first.
pub open spec fn first_named(list: Seq<GroupModel>) -> Option<NamedModel> {
    if list.len() > 0 {
        Some(named_groups(list)[0])
    } else {
        None
    }
}

/// The constraints of some groups.
pub fn named_columns(list: &Vec<Group>) -> (result: Vec<NamedColumns>)
    requires
        keys_have(groups(list@), 1),
    ensures
        named_models(result@) == named_groups(groups(list@)),
{
    let mut result: Vec<NamedColumns> = Vec::new();
    let mut i: usize = 0;
    while i < list.len()
        invariant
            i <= list@.len(),
            keys_have(groups(list@), 1),
            result@.len() == i,
            forall|j: int|
                0 <= j < i ==> (#[trigger] result@[j])@ == named_groups(groups(list@))[j],
        decreases list@.len() - i,
    {
        let group = &list[i];
        let ghost model = groups(list@)[i as int];
        assert(model == group@);
        assert(texts(group.key.parts@).len() == 1);
        assert(texts(group.key.parts@)[0] == group.key.parts@[0]@);
        result.push(
            NamedColumns { name: group.key.parts[0].clone(), columns: columns_of(&group.items) },
        );
        i = i + 1;
    }
    assert(named_models(result@) =~= named_groups(groups(list@)));
    result
}

/// The first of some constraints.
pub fn first_of(list: Vec<NamedColumns>) -> (result: Option<NamedColumns>)
    ensures
        optional_key(result) == (if list@.len() > 0 {
            Some(list@[0]@)
        } else {
            None
        }),
{
    let mut list = list;
    if list.len() > 0 {
        Some(list.remove(0))
    } else {
        None
    }
}

/// Whether every key has `count` texts.
pub open spec fn keys_have(list: Seq<GroupModel>, count: nat) -> bool {
    forall|i: int| 0 <= i < list.len() ==> (#[trigger] list[i]).key.parts.len() == count
}

/// Adding a row whose key has as many texts as the others keeps it so.
pub proof fn lemma_with_row_keys(
    list: Seq<GroupModel>,
    key: KeyModel,
    item: Option<ItemModel>,
    count: nat,
)
    requires
        keys_have(list, count),
        key.parts.len() == count,
    ensures
        keys_have(with_row(list, key, item), count),
    decreases list.len(),
{
    if list.len() > 0 && list[0].key != key && !key_before(key, list[0].key) {
        let rest = list.subrange(1, list.len() as int);
        assert(forall|i: int| 0 <= i < rest.len() ==> #[trigger] rest[i] == list[i + 1]);
        lemma_with_row_keys(rest, key, item, count);
        let tail = with_row(rest, key, item);
        assert(forall|i: int|
            0 < i < with_row(list, key, item).len() ==> #[trigger] with_row(list, key, item)[i]
                == tail[i - 1]);
    }
}

/// The entity that a foreign key refers to: its schema and table, or its name.
pub open spec fn referenced_entity(key: KeyModel) -> Seq<char> {
    if key.parts.len() == 3 {
        key.parts[1] + "."@ + key.parts[2]
    } else {
        key.parts[1]
    }
}

/// The foreign keys of some groups.
pub open spec fn foreign_groups(list: Seq<GroupModel>) -> Seq<ForeignKeyModel> {
    Seq::new(
        list.len(),
        |i: int|
            ForeignKeyModel {
                name: list[i].key.parts[0],
                columns: item_columns(list[i].items),
                referenced_entity: referenced_entity(list[i].key),
                referenced_columns: item_references(list[i].items),
            },
    )
}

/// The foreign keys of some groups.
pub fn foreign_keys(list: &Vec<Group>) -> (result: Vec<ForeignKeyMetadata>)
    requires
        keys_have(groups(list@), 2) || keys_have(groups(list@), 3),
    ensures
        foreign_models(result@) == foreign_groups(groups(list@)),
{
    let mut result: Vec<ForeignKeyMetadata> = Vec::new();
    let mut i: usize = 0;
    while i < list.len()
        invariant
            i <= list@.len(),
            keys_have(groups(list@), 2) || keys_have(groups(list@), 3),
            result@.len() == i,
            forall|j: int|
                0 <= j < i ==> (#[trigger] result@[j])@ == foreign_groups(groups(list@))[j],
        decreases list@.len() - i,
    {
        let group = &list[i];
        assert(groups(list@)[i as int] == group@);
        let parts = &group.key.parts;
        assert(texts(parts@).len() == parts@.len());
        assert(forall|k: int| 0 <= k < parts@.len() ==> #[trigger] texts(parts@)[k] == parts@[k]@);
        let entity = if parts.len() == 3 {
            framed(parts[1].as_str(), ".", parts[2].as_str())
        } else {
            parts[1].clone()
        };
        result.push(
            ForeignKeyMetadata {
                name: parts[0].clone(),
                columns: columns_of(&group.items),
                referenced_entity: entity,
                referenced_columns: references_of(&group.items),
            },
        );
        i = i + 1;
    }
    assert(foreign_models(result@) =~= foreign_groups(groups(list@)));
    result
}

} // verus!
