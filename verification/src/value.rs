//! Values, records and JSON documents.
use crate::text::{characters, listed, same, texts};
use vstd::prelude::*;

verus! {

/// A double-precision number.
///
/// A finite number is kept as its shortest JSON notation, which reads back to the same number.
#[derive(Debug)]
pub enum Double {
    Finite(String),
    Infinite { negative: bool },
    NotANumber,
}

/// A value of a database field.
#[derive(Debug)]
pub enum DbValue {
    Null,
    Bool(bool),
    Int64(i64),
    UInt64(u64),
    Float64(Double),
    Decimal(String),
    String(String),
    Date(String),
    Time(String),
    DateTime(String),
    Uuid(String),
    Binary(String),
    Array(Vec<DbValue>),
    Document(DbRecord),
    Vector(Vec<Double>),
}

/// Named values, ordered by name, each name once.
#[derive(Debug)]
pub struct DbRecord {
    entries: Vec<(String, DbValue)>,
}

/// A JSON document. A number is kept as its notation.
#[derive(Debug)]
pub enum Json {
    Null,
    Bool(bool),
    Number(String),
    Text(String),
    Array(Vec<Json>),
    /// The members in the order in which they are written.
    Object(Vec<(String, Json)>),
}

/// What a [`Double`] is.
pub enum DoubleModel {
    Finite(Seq<char>),
    Infinite { negative: bool },
    NotANumber,
}

/// What a [`DbValue`] is.
pub enum ValueModel {
    Null,
    Bool(bool),
    Int64(i64),
    UInt64(u64),
    Float64(DoubleModel),
    Decimal(Seq<char>),
    String(Seq<char>),
    Date(Seq<char>),
    Time(Seq<char>),
    DateTime(Seq<char>),
    Uuid(Seq<char>),
    Binary(Seq<char>),
    Array(Seq<ValueModel>),
    Document(Seq<(Seq<char>, ValueModel)>),
    Vector(Seq<DoubleModel>),
}

/// What a [`DbRecord`] is: its names with their values, in the order of the names.
pub type RecordModel = Seq<(Seq<char>, ValueModel)>;

/// What a [`Json`] document is.
pub enum JsonModel {
    Null,
    Bool(bool),
    Number(Seq<char>),
    Text(Seq<char>),
    Array(Seq<JsonModel>),
    Object(Seq<(Seq<char>, JsonModel)>),
}

impl View for Double {
    type V = DoubleModel;

    open spec fn view(&self) -> DoubleModel {
        match *self {
            Double::Finite(text) => DoubleModel::Finite(text@),
            Double::Infinite { negative } => DoubleModel::Infinite { negative },
            Double::NotANumber => DoubleModel::NotANumber,
        }
    }
}

/// What each of some doubles is.
pub open spec fn doubles(items: Seq<Double>) -> Seq<DoubleModel> {
    Seq::new(items.len(), |i: int| items[i]@)
}

impl DbRecord {
    /// The names and values that a record holds.
    pub closed spec fn content(self) -> Seq<(String, DbValue)> {
        self.entries@
    }

    /// The names of a record stand in strictly ascending order.
    #[verifier::type_invariant]
    spec fn ordered(self) -> bool {
        strictly_ascending(names(self.entries@))
    }
}

/// The names of some entries.
pub open spec fn names<V>(entries: Seq<(String, V)>) -> Seq<Seq<char>> {
    Seq::new(entries.len(), |i: int| entries[i].0@)
}

/// The names of a record.
pub open spec fn record_names(record: RecordModel) -> Seq<Seq<char>> {
    Seq::new(record.len(), |i: int| record[i].0)
}

/// The values of a record.
pub open spec fn record_values(record: RecordModel) -> Seq<ValueModel> {
    Seq::new(record.len(), |i: int| record[i].1)
}

/// Whether `left` stands before `right` in the order of their code points, which is also the
/// order of their bytes in UTF-8.
pub open spec fn text_before(left: Seq<char>, right: Seq<char>) -> bool
    decreases left.len(),
{
    if right.len() == 0 {
        false
    } else if left.len() == 0 {
        true
    } else if left[0] != right[0] {
        left[0] < right[0]
    } else {
        text_before(
            left.subrange(1, left.len() as int),
            right.subrange(1, right.len() as int),
        )
    }
}

/// Whether each text stands before every later one.
pub open spec fn strictly_ascending(texts: Seq<Seq<char>>) -> bool {
    forall|i: int, j: int|
        0 <= i < j < texts.len() ==> text_before(#[trigger] texts[i], #[trigger] texts[j])
}

/// What a value is.
pub open spec fn value_model(value: DbValue) -> ValueModel
    decreases value,
{
    match value {
        DbValue::Null => ValueModel::Null,
        DbValue::Bool(value) => ValueModel::Bool(value),
        DbValue::Int64(value) => ValueModel::Int64(value),
        DbValue::UInt64(value) => ValueModel::UInt64(value),
        DbValue::Float64(value) => ValueModel::Float64(value@),
        DbValue::Decimal(value) => ValueModel::Decimal(value@),
        DbValue::String(value) => ValueModel::String(value@),
        DbValue::Date(value) => ValueModel::Date(value@),
        DbValue::Time(value) => ValueModel::Time(value@),
        DbValue::DateTime(value) => ValueModel::DateTime(value@),
        DbValue::Uuid(value) => ValueModel::Uuid(value@),
        DbValue::Binary(value) => ValueModel::Binary(value@),
        DbValue::Array(items) => ValueModel::Array(
            Seq::new(
                items@.len(),
                |i: int|
                    if 0 <= i < items@.len() {
                        value_model(items@[i])
                    } else {
                        ValueModel::Null
                    },
            ),
        ),
        DbValue::Document(record) => ValueModel::Document(
            Seq::new(
                record.content().len(),
                |i: int|
                    if 0 <= i < record.content().len() {
                        (record.content()[i].0@, value_model(record.content()[i].1))
                    } else {
                        (Seq::<char>::empty(), ValueModel::Null)
                    },
            ),
        ),
        DbValue::Vector(items) => ValueModel::Vector(doubles(items@)),
    }
}

impl View for DbValue {
    type V = ValueModel;

    open spec fn view(&self) -> ValueModel {
        value_model(*self)
    }
}

/// What each of some values is.
pub open spec fn values(items: Seq<DbValue>) -> Seq<ValueModel> {
    Seq::new(items.len(), |i: int| items[i]@)
}

impl View for DbRecord {
    type V = RecordModel;

    open spec fn view(&self) -> RecordModel {
        Seq::new(self.content().len(), |i: int| (self.content()[i].0@, self.content()[i].1@))
    }
}

/// What each of some records is.
pub open spec fn records(items: Seq<DbRecord>) -> Seq<RecordModel> {
    Seq::new(items.len(), |i: int| items[i]@)
}

/// What a document is.
pub open spec fn json_model(document: Json) -> JsonModel
    decreases document,
{
    match document {
        Json::Null => JsonModel::Null,
        Json::Bool(value) => JsonModel::Bool(value),
        Json::Number(value) => JsonModel::Number(value@),
        Json::Text(value) => JsonModel::Text(value@),
        Json::Array(items) => JsonModel::Array(
            Seq::new(
                items@.len(),
                |i: int|
                    if 0 <= i < items@.len() {
                        json_model(items@[i])
                    } else {
                        JsonModel::Null
                    },
            ),
        ),
        Json::Object(members) => JsonModel::Object(
            Seq::new(
                members@.len(),
                |i: int|
                    if 0 <= i < members@.len() {
                        (members@[i].0@, json_model(members@[i].1))
                    } else {
                        (Seq::<char>::empty(), JsonModel::Null)
                    },
            ),
        ),
    }
}

impl View for Json {
    type V = JsonModel;

    open spec fn view(&self) -> JsonModel {
        json_model(*self)
    }
}

/// What each of some documents is.
pub open spec fn documents(items: Seq<Json>) -> Seq<JsonModel> {
    Seq::new(items.len(), |i: int| items[i]@)
}

/// What the members of an object are.
pub open spec fn members(items: Seq<(String, Json)>) -> Seq<(Seq<char>, JsonModel)> {
    Seq::new(items.len(), |i: int| (items[i].0@, items[i].1@))
}

/// An array value is the array of what its items are.
pub broadcast proof fn lemma_array_value(items: Vec<DbValue>)
    ensures
        #[trigger] value_model(DbValue::Array(items)) == ValueModel::Array(values(items@)),
{
    assert(value_model(DbValue::Array(items))->Array_0 =~= values(items@));
}

/// A document value is what its record is.
pub broadcast proof fn lemma_document_value(record: DbRecord)
    ensures
        #[trigger] value_model(DbValue::Document(record)) == ValueModel::Document(record@),
{
    assert(value_model(DbValue::Document(record))->Document_0 =~= record@);
}

/// An array is the array of what its items are.
pub broadcast proof fn lemma_json_array(items: Vec<Json>)
    ensures
        #[trigger] json_model(Json::Array(items)) == JsonModel::Array(documents(items@)),
{
    assert(json_model(Json::Array(items))->Array_0 =~= documents(items@));
}

/// An object is the object of what its members are.
pub broadcast proof fn lemma_json_object(items: Vec<(String, Json)>)
    ensures
        #[trigger] json_model(Json::Object(items)) == JsonModel::Object(members(items@)),
{
    assert(json_model(Json::Object(items))->Object_0 =~= members(items@));
}

/// Adding a number adds what it is.
pub broadcast proof fn lemma_doubles_push(items: Seq<Double>, item: Double)
    ensures
        #[trigger] doubles(items.push(item)) == doubles(items).push(item@),
{
    assert(doubles(items.push(item)) =~= doubles(items).push(item@));
}

/// Adding a value adds what it is.
pub broadcast proof fn lemma_values_push(items: Seq<DbValue>, item: DbValue)
    ensures
        #[trigger] values(items.push(item)) == values(items).push(item@),
{
    assert(values(items.push(item)) =~= values(items).push(item@));
}

/// Adding a record adds what it is.
pub broadcast proof fn lemma_records_push(items: Seq<DbRecord>, item: DbRecord)
    ensures
        #[trigger] records(items.push(item)) == records(items).push(item@),
{
    assert(records(items.push(item)) =~= records(items).push(item@));
}

/// Adding a document adds what it is.
pub broadcast proof fn lemma_documents_push(items: Seq<Json>, item: Json)
    ensures
        #[trigger] documents(items.push(item)) == documents(items).push(item@),
{
    assert(documents(items.push(item)) =~= documents(items).push(item@));
}

/// Adding a member adds what it is.
pub broadcast proof fn lemma_members_push(items: Seq<(String, Json)>, item: (String, Json))
    ensures
        #[trigger] members(items.push(item)) == members(items).push((item.0@, item.1@)),
{
    assert(members(items.push(item)) =~= members(items).push((item.0@, item.1@)));
}

/// No members are no members.
pub broadcast proof fn lemma_no_members()
    ensures
        #[trigger] members(Seq::<(String, Json)>::empty()) == Seq::<
            (Seq<char>, JsonModel),
        >::empty(),
{
    assert(members(Seq::<(String, Json)>::empty()) =~= Seq::<(Seq<char>, JsonModel)>::empty());
}

/// No documents are no documents.
pub broadcast proof fn lemma_no_documents()
    ensures
        #[trigger] documents(Seq::<Json>::empty()) == Seq::<JsonModel>::empty(),
{
    assert(documents(Seq::<Json>::empty()) =~= Seq::<JsonModel>::empty());
}

/// No values are no values.
pub broadcast proof fn lemma_no_values()
    ensures
        #[trigger] values(Seq::<DbValue>::empty()) == Seq::<ValueModel>::empty(),
{
    assert(values(Seq::<DbValue>::empty()) =~= Seq::<ValueModel>::empty());
}

/// No records are no records.
pub broadcast proof fn lemma_no_records()
    ensures
        #[trigger] records(Seq::<DbRecord>::empty()) == Seq::<RecordModel>::empty(),
{
    assert(records(Seq::<DbRecord>::empty()) =~= Seq::<RecordModel>::empty());
}

/// A record of one entry more has that entry put into it.
pub broadcast proof fn lemma_record_of_push(
    entries: Seq<(Seq<char>, ValueModel)>,
    entry: (Seq<char>, ValueModel),
)
    ensures
        #[trigger] record_of(entries.push(entry)) == with_entry(
            record_of(entries),
            entry.0,
            entry.1,
        ),
{
    assert(entries.push(entry).drop_last() =~= entries);
}

pub broadcast group group_models {
    lemma_record_of_push,
    lemma_no_members,
    lemma_no_documents,
    lemma_no_values,
    lemma_no_records,
    lemma_doubles_push,
    lemma_values_push,
    lemma_records_push,
    lemma_documents_push,
    lemma_members_push,
    lemma_array_value,
    lemma_document_value,
    lemma_json_array,
    lemma_json_object,
}

impl Double {
    /// A copy of a number.
    pub fn copy(&self) -> (result: Double)
        ensures
            result@ == self@,
    {
        match self {
            Double::Finite(text) => Double::Finite(text.clone()),
            Double::Infinite { negative } => Double::Infinite { negative: *negative },
            Double::NotANumber => Double::NotANumber,
        }
    }
}

/// Copies of numbers.
pub fn copy_doubles(source: &Vec<Double>) -> (result: Vec<Double>)
    ensures
        doubles(result@) == doubles(source@),
{
    let mut result: Vec<Double> = Vec::new();
    let mut i: usize = 0;
    while i < source.len()
        invariant
            i <= source@.len(),
            result@.len() == i,
            forall|j: int| 0 <= j < i ==> (#[trigger] result@[j])@ == source@[j]@,
        decreases source@.len() - i,
    {
        result.push(source[i].copy());
        i = i + 1;
    }
    assert(doubles(result@) =~= doubles(source@));
    result
}

impl DbValue {
    /// A copy of a value.
    pub fn copy(&self) -> (result: DbValue)
        ensures
            result@ == self@,
        decreases self,
    {
        broadcast use group_models;

        match self {
            DbValue::Null => DbValue::Null,
            DbValue::Bool(value) => DbValue::Bool(*value),
            DbValue::Int64(value) => DbValue::Int64(*value),
            DbValue::UInt64(value) => DbValue::UInt64(*value),
            DbValue::Float64(value) => DbValue::Float64(value.copy()),
            DbValue::Decimal(value) => DbValue::Decimal(value.clone()),
            DbValue::String(value) => DbValue::String(value.clone()),
            DbValue::Date(value) => DbValue::Date(value.clone()),
            DbValue::Time(value) => DbValue::Time(value.clone()),
            DbValue::DateTime(value) => DbValue::DateTime(value.clone()),
            DbValue::Uuid(value) => DbValue::Uuid(value.clone()),
            DbValue::Binary(value) => DbValue::Binary(value.clone()),
            DbValue::Array(items) => DbValue::Array(copy_values(items)),
            DbValue::Document(record) => DbValue::Document(record.copy()),
            DbValue::Vector(items) => DbValue::Vector(copy_doubles(items)),
        }
    }

    /// Whether the value is the null value.
    pub fn is_null(&self) -> (result: bool)
        ensures
            result == (self@ == ValueModel::Null),
    {
        match self {
            DbValue::Null => true,
            _ => false,
        }
    }
}

/// Copies of values.
pub fn copy_values(source: &Vec<DbValue>) -> (result: Vec<DbValue>)
    ensures
        values(result@) == values(source@),
    decreases source,
{
    let mut result: Vec<DbValue> = Vec::new();
    let mut i: usize = 0;
    while i < source.len()
        invariant
            i <= source@.len(),
            result@.len() == i,
            forall|j: int| 0 <= j < i ==> (#[trigger] result@[j])@ == source@[j]@,
        decreases source@.len() - i,
    {
        let item = &source[i];
        assert(decreases_to!(source => *item));
        result.push(item.copy());
        i = i + 1;
    }
    assert(values(result@) =~= values(source@));
    result
}

impl DbRecord {
    /// A copy of a record.
    pub fn copy(&self) -> (result: DbRecord)
        ensures
            result@ == self@,
        decreases self,
    {
        proof {
            use_type_invariant(self);
        }
        let mut result: Vec<(String, DbValue)> = Vec::new();
        let mut i: usize = 0;
        while i < self.entries.len()
            invariant
                i <= self.entries@.len(),
                result@.len() == i,
                forall|j: int|
                    0 <= j < i ==> (#[trigger] result@[j]).0@ == self.entries@[j].0@
                        && result@[j].1@ == self.entries@[j].1@,
            decreases self.entries@.len() - i,
        {
            let entry = &self.entries[i];
            assert(decreases_to!(self => entry.1));
            result.push((entry.0.clone(), entry.1.copy()));
            i = i + 1;
        }
        assert(names(result@) =~= names(self.entries@));
        let copied = DbRecord { entries: result };
        assert(copied@ =~= self@);
        copied
    }
}


/// The value that stands under `name`.
pub open spec fn named<V>(entries: Seq<(Seq<char>, V)>, name: Seq<char>) -> Option<V>
    decreases entries.len(),
{
    if entries.len() == 0 {
        None
    } else if entries[0].0 == name {
        Some(entries[0].1)
    } else {
        named(entries.subrange(1, entries.len() as int), name)
    }
}

/// A record with `value` under `name`: in the place of the value that stood there, or else where
/// the order of the names puts it.
pub open spec fn with_entry<V>(record: Seq<(Seq<char>, V)>, name: Seq<char>, value: V) -> Seq<
    (Seq<char>, V),
>
    decreases record.len(),
{
    if record.len() == 0 {
        seq![(name, value)]
    } else if record[0].0 == name {
        record.update(0, (name, value))
    } else if text_before(name, record[0].0) {
        seq![(name, value)] + record
    } else {
        seq![record[0]] + with_entry(record.subrange(1, record.len() as int), name, value)
    }
}

/// The record that holds `entries`, a later one in the place of an earlier one of the same name.
pub open spec fn record_of<V>(entries: Seq<(Seq<char>, V)>) -> Seq<(Seq<char>, V)>
    decreases entries.len(),
{
    if entries.len() == 0 {
        Seq::empty()
    } else {
        with_entry(record_of(entries.drop_last()), entries.last().0, entries.last().1)
    }
}

/// No text stands before itself.
pub proof fn lemma_before_irreflexive(text: Seq<char>)
    ensures
        !text_before(text, text),
    decreases text.len(),
{
    if text.len() > 0 {
        lemma_before_irreflexive(text.subrange(1, text.len() as int));
    }
}

/// Of two different texts one stands before the other.
pub proof fn lemma_before_total(left: Seq<char>, right: Seq<char>)
    ensures
        left == right || text_before(left, right) || text_before(right, left),
    decreases left.len(),
{
    if left.len() == 0 && right.len() == 0 {
        assert(left =~= right);
    } else if left.len() > 0 && right.len() > 0 && left[0] == right[0] {
        let left_rest = left.subrange(1, left.len() as int);
        let right_rest = right.subrange(1, right.len() as int);
        lemma_before_total(left_rest, right_rest);
        if left_rest == right_rest {
            assert(left =~= seq![left[0]] + left_rest);
            assert(right =~= seq![right[0]] + right_rest);
        }
    } else if left.len() > 0 && right.len() > 0 {
        assert(left[0] < right[0] || right[0] < left[0]);
    }
}

/// What stands before a text stands before all that follow it.
pub proof fn lemma_before_transitive(first: Seq<char>, second: Seq<char>, third: Seq<char>)
    requires
        text_before(first, second),
        text_before(second, third),
    ensures
        text_before(first, third),
    decreases first.len(),
{
    if first.len() > 0 && first[0] == second[0] && second[0] == third[0] {
        lemma_before_transitive(
            first.subrange(1, first.len() as int),
            second.subrange(1, second.len() as int),
            third.subrange(1, third.len() as int),
        );
    }
}

/// Whether `left` stands before `right`.
pub(crate) fn before(left: &str, right: &str) -> (result: bool)
    ensures
        result == text_before(left@, right@),
{
    let left_chars = characters(left);
    let right_chars = characters(right);
    let mut i: usize = 0;
    proof {
        assert(left@.subrange(0, left@.len() as int) =~= left@);
        assert(right@.subrange(0, right@.len() as int) =~= right@);
    }
    while i < left_chars.len() && i < right_chars.len() && left_chars[i] == right_chars[i]
        invariant
            i <= left_chars@.len(),
            i <= right_chars@.len(),
            left_chars@ == left@,
            right_chars@ == right@,
            text_before(left@, right@) == text_before(
                left@.subrange(i as int, left@.len() as int),
                right@.subrange(i as int, right@.len() as int),
            ),
        decreases left_chars@.len() - i,
    {
        let ghost left_rest = left@.subrange(i as int, left@.len() as int);
        let ghost right_rest = right@.subrange(i as int, right@.len() as int);
        assert(left_rest.subrange(1, left_rest.len() as int) =~= left@.subrange(
            i + 1,
            left@.len() as int,
        ));
        assert(right_rest.subrange(1, right_rest.len() as int) =~= right@.subrange(
            i + 1,
            right@.len() as int,
        ));
        i = i + 1;
    }
    if i >= right_chars.len() {
        false
    } else if i >= left_chars.len() {
        true
    } else {
        left_chars[i] < right_chars[i]
    }
}

/// Entries whose names all stand before `name` stay in front of the place of `name`.
proof fn lemma_with_entry_skips<V>(
    record: Seq<(Seq<char>, V)>,
    count: int,
    name: Seq<char>,
    value: V,
)
    requires
        0 <= count <= record.len(),
        forall|i: int| 0 <= i < count ==> text_before(#[trigger] record[i].0, name),
    ensures
        with_entry(record, name, value) == record.subrange(0, count) + with_entry(
            record.subrange(count, record.len() as int),
            name,
            value,
        ),
    decreases count,
{
    if count == 0 {
        assert(record.subrange(0, record.len() as int) =~= record);
        assert(record.subrange(0, 0) + with_entry(record, name, value) =~= with_entry(
            record,
            name,
            value,
        ));
    } else {
        let rest = record.subrange(1, record.len() as int);
        assert(text_before(record[0].0, name));
        lemma_before_irreflexive(name);
        if text_before(name, record[0].0) {
            lemma_before_transitive(name, record[0].0, name);
        }
        assert forall|i: int| 0 <= i < count - 1 implies text_before(
            #[trigger] rest[i].0,
            name,
        ) by {
            assert(rest[i] == record[i + 1]);
        }
        lemma_with_entry_skips(rest, count - 1, name, value);
        assert(rest.subrange(count - 1, rest.len() as int) =~= record.subrange(
            count,
            record.len() as int,
        ));
        assert(seq![record[0]] + rest.subrange(0, count - 1) =~= record.subrange(0, count));
        let tail = with_entry(record.subrange(count, record.len() as int), name, value);
        assert(seq![record[0]] + (rest.subrange(0, count - 1) + tail) =~= record.subrange(0, count)
            + tail);
    }
}

/// Entries in the order of their names are kept as they are.
pub proof fn lemma_ordered_entries<V>(entries: Seq<(Seq<char>, V)>)
    requires
        strictly_ascending(Seq::new(entries.len(), |i: int| entries[i].0)),
    ensures
        record_of(entries) == entries,
    decreases entries.len(),
{
    if entries.len() > 0 {
        let shorter = entries.drop_last();
        let (name, value) = entries.last();
        let ordered = Seq::new(entries.len(), |i: int| entries[i].0);
        let earlier = Seq::new(shorter.len(), |i: int| shorter[i].0);
        assert forall|i: int, j: int| 0 <= i < j < earlier.len() implies text_before(
            #[trigger] earlier[i],
            #[trigger] earlier[j],
        ) by {
            assert(text_before(ordered[i], ordered[j]));
        }
        lemma_ordered_entries(shorter);
        assert forall|i: int| 0 <= i < shorter.len() implies text_before(
            #[trigger] shorter[i].0,
            name,
        ) by {
            assert(text_before(ordered[i], ordered[entries.len() - 1]));
        }
        lemma_with_entry_skips(shorter, shorter.len() as int, name, value);
        assert(shorter.subrange(0, shorter.len() as int) =~= shorter);
        assert(shorter.subrange(shorter.len() as int, shorter.len() as int) =~= Seq::empty());
        assert(shorter + seq![(name, value)] =~= entries);
    } else {
        assert(record_of(entries) =~= entries);
    }
}

impl DbRecord {
    /// The empty record.
    pub fn new() -> (result: DbRecord)
        ensures
            result@ == RecordModel::empty(),
    {
        let result = DbRecord { entries: Vec::new() };
        assert(result@ =~= RecordModel::empty());
        result
    }

    /// The number of names.
    pub fn len(&self) -> (result: usize)
        ensures
            result == self@.len(),
    {
        self.entries.len()
    }

    /// The name at a position in the order of the names.
    pub fn name_at(&self, index: usize) -> (result: &str)
        requires
            index < self@.len(),
        ensures
            result@ == self@[index as int].0,
    {
        self.entries[index].0.as_str()
    }

    /// The value at a position in the order of the names.
    pub fn value_at(&self, index: usize) -> (result: &DbValue)
        requires
            index < self@.len(),
        ensures
            result@ == self@[index as int].1,
            *result == self.content()[index as int].1,
    {
        &self.entries[index].1
    }

    /// A value of a record is part of the record.
    pub proof fn lemma_values_are_smaller(&self, index: int)
        requires
            0 <= index < self@.len(),
        ensures
            decreases_to!(*self => self.content()[index].1),
    {
        let entry = self.entries@[index];
        assert(decreases_to!(self.entries => self.entries@));
    }

    /// The value under a name.
    pub fn get(&self, name: &str) -> (result: Option<&DbValue>)
        ensures
            match result {
                Some(value) => named(self@, name@) == Some(value@),
                None => named(self@, name@) is None,
            },
    {
        let mut i: usize = 0;
        assert(self@.subrange(0, self@.len() as int) =~= self@);
        while i < self.entries.len()
            invariant
                i <= self.entries@.len(),
                self@.len() == self.entries@.len(),
                named(self@, name@) == named(
                    self@.subrange(i as int, self@.len() as int),
                    name@,
                ),
            decreases self.entries@.len() - i,
        {
            let ghost rest = self@.subrange(i as int, self@.len() as int);
            assert(rest[0].0 == self.entries@[i as int].0@);
            assert(rest.subrange(1, rest.len() as int) =~= self@.subrange(
                i + 1,
                self@.len() as int,
            ));
            if same(self.entries[i].0.as_str(), name) {
                return Some(&self.entries[i].1);
            }
            i = i + 1;
        }
        None
    }

    /// Puts a value under a name.
    pub fn insert(&mut self, name: String, value: DbValue)
        ensures
            final(self)@ == with_entry(old(self)@, name@, value@),
    {
        proof {
            use_type_invariant(&*self);
        }
        let ghost initial = self@;
        let mut entries: Vec<(String, DbValue)> = Vec::new();
        std::mem::swap(&mut entries, &mut self.entries);
        let ghost old_entries = entries@;
        assert(forall|j: int| 0 <= j < initial.len() ==> #[trigger] initial[j] == (old_entries[j].0@, old_entries[j].1@));
        let mut i: usize = 0;
        while i < entries.len() && before(entries[i].0.as_str(), name.as_str())
            invariant
                i <= entries@.len(),
                entries@ == old_entries,
                forall|j: int| 0 <= j < i ==> text_before(#[trigger] old_entries[j].0@, name@),
            decreases entries@.len() - i,
        {
            i = i + 1;
        }
        proof {
            lemma_with_entry_skips(initial, i as int, name@, value@);
        }
        let ghost rest = initial.subrange(i as int, initial.len() as int);
        if i < entries.len() && same(entries[i].0.as_str(), name.as_str()) {
            let ghost entry = (name, value);
            entries.set(i, (name, value));
            assert(names(entries@) =~= names(old_entries));
            self.entries = entries;
            assert(self@ =~= initial.subrange(0, i as int) + rest.update(0, (entry.0@, entry.1@)));
        } else {
            let ghost entry = (name, value);
            entries.insert(i, (name, value));
            proof {
                lemma_insert_keeps_order(names(old_entries), i as int, entry.0@);
                assert(names(entries@) =~= names(old_entries).insert(i as int, entry.0@));
                if rest.len() > 0 {
                    lemma_before_total(entry.0@, old_entries[i as int].0@);
                }
            }
            self.entries = entries;
            assert(self@ =~= initial.subrange(0, i as int) + (seq![(entry.0@, entry.1@)] + rest));
            assert(rest.len() == 0 ==> seq![(entry.0@, entry.1@)] + rest =~= seq![(entry.0@, entry.1@)]);
        }
    }
}

/// The entries of a record whose names are, or are not, among some others.
pub open spec fn selected(record: RecordModel, wanted: Seq<Seq<char>>, keep: bool) -> RecordModel
    decreases record.len(),
{
    if record.len() == 0 {
        Seq::empty()
    } else {
        let before = selected(record.drop_last(), wanted, keep);
        if wanted.contains(record.last().0) == keep {
            before.push(record.last())
        } else {
            before
        }
    }
}

impl DbRecord {
    /// The entries whose names are, or are not, among some others.
    pub fn select(&self, wanted: &Vec<String>, keep: bool) -> (result: DbRecord)
        ensures
            result@ == selected(self@, texts(wanted@), keep),
    {
        proof {
            use_type_invariant(self);
        }
        let mut result: Vec<(String, DbValue)> = Vec::new();
        let mut i: usize = 0;
        let ghost mut shown: RecordModel = Seq::empty();
        assert(self@.subrange(0, 0) =~= RecordModel::empty());
        while i < self.entries.len()
            invariant
                i <= self.entries@.len(),
                self@.len() == self.entries@.len(),
                strictly_ascending(names(self.entries@)),
                shown == selected(self@.subrange(0, i as int), texts(wanted@), keep),
                shown.len() == result@.len(),
                forall|j: int|
                    0 <= j < result@.len() ==> #[trigger] shown[j] == (
                        result@[j].0@,
                        result@[j].1@,
                    ),
                strictly_ascending(names(result@)),
                i < self.entries@.len() ==> forall|j: int|
                    0 <= j < result@.len() ==> text_before(
                        (#[trigger] result@[j]).0@,
                        self.entries@[i as int].0@,
                    ),
            decreases self.entries@.len() - i,
        {
            let ghost next = self@.subrange(0, i + 1);
            assert(next.drop_last() =~= self@.subrange(0, i as int));
            let entry = &self.entries[i];
            assert(next.last() == (entry.0@, entry.1@));
            let ghost before = result@;
            if listed(wanted, entry.0.as_str()) == keep {
                result.push((entry.0.clone(), entry.1.copy()));
                proof {
                    shown = shown.push((entry.0@, entry.1@));
                    let all = names(result@);
                    assert forall|a: int, b: int| 0 <= a < b < all.len() implies text_before(
                        #[trigger] all[a],
                        #[trigger] all[b],
                    ) by {
                        assert(names(before)[a] == all[a]);
                        if b < before.len() {
                            assert(names(before)[b] == all[b]);
                        } else {
                            assert(before[a].0@ == all[a]);
                        }
                    }
                }
            }
            proof {
                if i + 1 < self.entries@.len() {
                    let ordered = names(self.entries@);
                    assert(text_before(ordered[i as int], ordered[i + 1]));
                    assert forall|j: int| 0 <= j < result@.len() implies text_before(
                        (#[trigger] result@[j]).0@,
                        self.entries@[i + 1].0@,
                    ) by {
                        if j < before.len() {
                            assert(result@[j] == before[j]);
                            lemma_before_transitive(
                                result@[j].0@,
                                ordered[i as int],
                                ordered[i + 1],
                            );
                        }
                    }
                }
            }
            i = i + 1;
        }
        assert(self@.subrange(0, i as int) =~= self@);
        let record = DbRecord { entries: result };
        assert(record@ =~= shown);
        record
    }
}

/// A name put in front of the first name that does not stand before it keeps the order.
proof fn lemma_insert_keeps_order(ordered: Seq<Seq<char>>, index: int, name: Seq<char>)
    requires
        strictly_ascending(ordered),
        0 <= index <= ordered.len(),
        forall|j: int| 0 <= j < index ==> text_before(#[trigger] ordered[j], name),
        index < ordered.len() ==> ordered[index] != name && !text_before(ordered[index], name),
    ensures
        strictly_ascending(ordered.insert(index, name)),
{
    let wider = ordered.insert(index, name);
    if index < ordered.len() {
        lemma_before_total(name, ordered[index]);
    }
    assert forall|i: int, j: int| 0 <= i < j < wider.len() implies text_before(
        #[trigger] wider[i],
        #[trigger] wider[j],
    ) by {
        if j < index {
            assert(wider[i] == ordered[i] && wider[j] == ordered[j]);
        } else if j == index {
            assert(wider[i] == ordered[i]);
        } else if i < index {
            assert(wider[i] == ordered[i] && wider[j] == ordered[j - 1]);
        } else if i == index {
            assert(wider[j] == ordered[j - 1]);
            if j - 1 > index {
                lemma_before_transitive(name, ordered[index], ordered[j - 1]);
            }
        } else {
            assert(wider[i] == ordered[i - 1] && wider[j] == ordered[j - 1]);
        }
    }
}

} // verus!
